//! Which backend supplies the current map's collision geometry, and the
//! status that the user interface shows for it.
//!
//! Geometry is tried from three backends in a fixed order: live data read
//! from the running game, a cached file, and an extraction run over the
//! current map. The first one that yields geometry wins.
use vstd::prelude::*;

verus! {

/// Where a map's geometry came from.
#[derive(Debug, Clone, Copy, PartialEq, Eq, Structural)]
pub enum GeometrySource {
    RuntimeMapdata,
    CacheBvh,
    Source2ViewerCurrentMap,
}

/// The text shown for a geometry source.
pub open spec fn source_label(source: GeometrySource) -> Seq<char> {
    match source {
        GeometrySource::RuntimeMapdata => "Runtime"@,
        GeometrySource::CacheBvh => "Cache fallback"@,
        GeometrySource::Source2ViewerCurrentMap => "Current-map extract"@,
    }
}

impl GeometrySource {
    /// Human-readable name of the source.
    pub fn label(self) -> (text: &'static str)
        ensures
            text@ == source_label(self),
    {
        match self {
            Self::RuntimeMapdata => "Runtime",
            Self::CacheBvh => "Cache fallback",
            Self::Source2ViewerCurrentMap => "Current-map extract",
        }
    }
}

/// Progress of the geometry load for the current map.
#[derive(Debug, Clone, Copy, PartialEq, Eq, Structural)]
pub enum GeometryState {
    Idle,
    Loading,
    Ready,
    Fallback,
    Failed,
}

/// The text shown for a load state.
pub open spec fn state_label(state: GeometryState) -> Seq<char> {
    match state {
        GeometryState::Idle => "Idle"@,
        GeometryState::Loading => "Loading"@,
        GeometryState::Ready => "Ready"@,
        GeometryState::Fallback => "Fallback"@,
        GeometryState::Failed => "Failed"@,
    }
}

impl GeometryState {
    /// Human-readable name of the state.
    pub fn label(self) -> (text: &'static str)
        ensures
            text@ == state_label(self),
    {
        match self {
            Self::Idle => "Idle",
            Self::Loading => "Loading",
            Self::Ready => "Ready",
            Self::Fallback => "Fallback",
            Self::Failed => "Failed",
        }
    }
}

/// What the interface reports about the current map's geometry.
#[derive(Debug, Clone)]
pub struct GeometryStatus {
    pub state: GeometryState,
    pub source: Option<GeometrySource>,
    pub map: String,
    pub detail: String,
}

/// Mathematical model of a [`GeometryStatus`]: its texts as character sequences.
pub struct StatusModel {
    pub state: GeometryState,
    pub source: Option<GeometrySource>,
    pub map: Seq<char>,
    pub detail: Seq<char>,
}

impl View for GeometryStatus {
    type V = StatusModel;

    open spec fn view(&self) -> StatusModel {
        StatusModel { state: self.state, source: self.source, map: self.map@, detail: self.detail@ }
    }
}

/// The status before any map has been seen.
pub open spec fn idle_status() -> StatusModel {
    StatusModel { state: GeometryState::Idle, source: None, map: Seq::empty(), detail: Seq::empty() }
}

/// The status while the backends of `map` are being tried.
pub open spec fn loading_status(map: Seq<char>) -> StatusModel {
    StatusModel {
        state: GeometryState::Loading,
        source: None,
        map,
        detail: "Resolving geometry backend"@,
    }
}

/// The status once the backends of `map` have been tried; `source` is the
/// backend that succeeded, if any.
pub open spec fn resolved_status(map: Seq<char>, source: Option<GeometrySource>) -> StatusModel {
    match source {
        Some(GeometrySource::RuntimeMapdata) => StatusModel {
            state: GeometryState::Ready,
            source,
            map,
            detail: "Loaded live geometry from game memory"@,
        },
        Some(GeometrySource::CacheBvh) => StatusModel {
            state: GeometryState::Fallback,
            source,
            map,
            detail: "Runtime backend unavailable, using cached .bvh"@,
        },
        Some(GeometrySource::Source2ViewerCurrentMap) => StatusModel {
            state: GeometryState::Fallback,
            source,
            map,
            detail: "Recovered current map via Source2Viewer"@,
        },
        None => StatusModel {
            state: GeometryState::Failed,
            source: None,
            map,
            detail: "No runtime geometry, cache, or recovery path succeeded"@,
        },
    }
}

/// The reported state follows from the source alone: live data is ready,
/// either fallback is a fallback, no source is a failure; the status always
/// names the map and the source it was given.
pub proof fn law_status_follows_source(map: Seq<char>, source: Option<GeometrySource>)
    ensures
        resolved_status(map, source).map == map,
        resolved_status(map, source).source == source,
        (resolved_status(map, source).state == GeometryState::Ready) <==> (source == Some(
            GeometrySource::RuntimeMapdata,
        )),
        (resolved_status(map, source).state == GeometryState::Fallback) <==> (source == Some(
            GeometrySource::CacheBvh,
        ) || source == Some(GeometrySource::Source2ViewerCurrentMap)),
        (resolved_status(map, source).state == GeometryState::Failed) <==> source is None,
{
}

impl GeometryStatus {
    /// A field-by-field copy.
    pub fn duplicate(&self) -> (copy: Self)
        ensures
            copy@ == self@,
    {
        GeometryStatus {
            state: self.state,
            source: self.source,
            map: self.map.clone(),
            detail: self.detail.clone(),
        }
    }
}

impl Default for GeometryStatus {
    fn default() -> (status: Self)
        ensures
            status@ == idle_status(),
    {
        GeometryStatus {
            state: GeometryState::Idle,
            source: None,
            map: String::new(),
            detail: String::new(),
        }
    }
}


/// The source recorded in a load outcome.
pub open spec fn outcome_source<B>(outcome: Option<(B, GeometrySource)>) -> Option<GeometrySource> {
    match outcome {
        Some((_, source)) => Some(source),
        None => None,
    }
}

/// Where a map load stands: which backends have failed so far, or which
/// one delivered the geometry.
#[derive(Debug, Clone, Copy, PartialEq, Eq, Structural)]
pub enum LoadProgress {
    NothingTried,
    RuntimeFailed,
    CacheFailed,
    AllFailed,
    Loaded(GeometrySource),
}

/// What the loader does next: run one backend, or stop.
#[derive(Debug, Clone, Copy, PartialEq, Eq, Structural)]
pub enum LoadAction {
    Run(GeometrySource),
    Finish,
}

/// The next step of a load: the live backend first, the cache once it has
/// failed, the extraction once both have failed; nothing more once a
/// backend has delivered or all have failed.
pub open spec fn next_action(progress: LoadProgress) -> LoadAction {
    match progress {
        LoadProgress::NothingTried => LoadAction::Run(GeometrySource::RuntimeMapdata),
        LoadProgress::RuntimeFailed => LoadAction::Run(GeometrySource::CacheBvh),
        LoadProgress::CacheFailed => LoadAction::Run(GeometrySource::Source2ViewerCurrentMap),
        LoadProgress::AllFailed => LoadAction::Finish,
        LoadProgress::Loaded(_) => LoadAction::Finish,
    }
}

/// Where a load stands after the backend that `progress` calls for has run
/// and delivered (`delivered`) or not.
pub open spec fn after_attempt(progress: LoadProgress, delivered: bool) -> LoadProgress {
    match next_action(progress) {
        LoadAction::Run(source) => if delivered {
            LoadProgress::Loaded(source)
        } else {
            match progress {
                LoadProgress::NothingTried => LoadProgress::RuntimeFailed,
                LoadProgress::RuntimeFailed => LoadProgress::CacheFailed,
                _ => LoadProgress::AllFailed,
            }
        },
        LoadAction::Finish => progress,
    }
}

/// The source of a finished load, if a backend delivered.
pub open spec fn loaded_source(progress: LoadProgress) -> Option<GeometrySource> {
    match progress {
        LoadProgress::Loaded(source) => Some(source),
        _ => None,
    }
}

/// Where a load stands after backends delivered as `delivered` says, one
/// entry per backend run, starting from nothing tried.
pub open spec fn progress_after(delivered: Seq<bool>) -> LoadProgress
    decreases delivered.len(),
{
    if delivered.len() == 0 {
        LoadProgress::NothingTried
    } else {
        after_attempt(progress_after(delivered.drop_last()), delivered.last())
    }
}

/// The order of the backends: the live one is asked first, the cache only
/// once the live one has failed, the extraction only once both have
/// failed; once a backend has delivered, or all have failed, nothing more
/// runs.
pub proof fn law_backend_order(progress: LoadProgress)
    ensures
        next_action(progress) == LoadAction::Run(GeometrySource::RuntimeMapdata) <==> progress
            == LoadProgress::NothingTried,
        next_action(progress) == LoadAction::Run(GeometrySource::CacheBvh) <==> progress
            == LoadProgress::RuntimeFailed,
        next_action(progress) == LoadAction::Run(GeometrySource::Source2ViewerCurrentMap)
            <==> progress == LoadProgress::CacheFailed,
        next_action(progress) is Run ==> next_action(after_attempt(progress, true))
            == LoadAction::Finish,
        next_action(progress) is Run ==> loaded_source(after_attempt(progress, true)) == Some(
            next_action(progress)->0,
        ),
{
}

/// A load runs at most three backends: after three attempts nothing more
/// runs, and a backend that delivered is the one the load ends with.
pub proof fn law_load_ends(delivered: Seq<bool>)
    requires
        delivered.len() >= 3,
    ensures
        next_action(progress_after(delivered)) == LoadAction::Finish,
    decreases delivered.len(),
{
    let front = delivered.drop_last();
    if front.len() >= 3 {
        law_load_ends(front);
    } else {
        let first = front.drop_last();
        assert(first.drop_last() =~= Seq::<bool>::empty());
        assert(progress_after(first.drop_last()) == LoadProgress::NothingTried);
        let p1 = progress_after(first);
        assert(p1 == after_attempt(LoadProgress::NothingTried, first.last()));
        let p2 = progress_after(front);
        assert(p2 == after_attempt(p1, front.last()));
        assert(progress_after(delivered) == after_attempt(p2, delivered.last()));
    }
}

/// The next step of a load.
pub fn next_load_action(progress: LoadProgress) -> (action: LoadAction)
    ensures
        action == next_action(progress),
{
    match progress {
        LoadProgress::NothingTried => LoadAction::Run(GeometrySource::RuntimeMapdata),
        LoadProgress::RuntimeFailed => LoadAction::Run(GeometrySource::CacheBvh),
        LoadProgress::CacheFailed => LoadAction::Run(GeometrySource::Source2ViewerCurrentMap),
        LoadProgress::AllFailed => LoadAction::Finish,
        LoadProgress::Loaded(_) => LoadAction::Finish,
    }
}

/// Records whether the backend that `progress` called for delivered.
pub fn record_attempt(progress: LoadProgress, delivered: bool) -> (next: LoadProgress)
    requires
        next_action(progress) is Run,
    ensures
        next == after_attempt(progress, delivered),
{
    match next_load_action(progress) {
        LoadAction::Run(source) => if delivered {
            LoadProgress::Loaded(source)
        } else {
            match progress {
                LoadProgress::NothingTried => LoadProgress::RuntimeFailed,
                LoadProgress::RuntimeFailed => LoadProgress::CacheFailed,
                _ => LoadProgress::AllFailed,
            }
        },
        LoadAction::Finish => progress,
    }
}

/// The status of `map_name` to report once no backend remains to run.
pub fn finished_status(map_name: &str, progress: LoadProgress) -> (status: GeometryStatus)
    requires
        next_action(progress) == LoadAction::Finish,
    ensures
        status@ == resolved_status(map_name@, loaded_source(progress)),
        consistent_status(status@),
{
    proof {
        law_reported_statuses_are_consistent(map_name@, loaded_source(progress));
    }
    match progress {
        LoadProgress::Loaded(GeometrySource::RuntimeMapdata) => GeometryStatus {
            state: GeometryState::Ready,
            source: Some(GeometrySource::RuntimeMapdata),
            map: map_name.to_owned(),
            detail: "Loaded live geometry from game memory".to_owned(),
        },
        LoadProgress::Loaded(GeometrySource::CacheBvh) => GeometryStatus {
            state: GeometryState::Fallback,
            source: Some(GeometrySource::CacheBvh),
            map: map_name.to_owned(),
            detail: "Runtime backend unavailable, using cached .bvh".to_owned(),
        },
        LoadProgress::Loaded(GeometrySource::Source2ViewerCurrentMap) => GeometryStatus {
            state: GeometryState::Fallback,
            source: Some(GeometrySource::Source2ViewerCurrentMap),
            map: map_name.to_owned(),
            detail: "Recovered current map via Source2Viewer".to_owned(),
        },
        _ => GeometryStatus {
            state: GeometryState::Failed,
            source: None,
            map: map_name.to_owned(),
            detail: "No runtime geometry, cache, or recovery path succeeded".to_owned(),
        },
    }
}

/// The first step of loading `map_name`: its name without the package
/// extension, and the status to report before any backend runs: the idle
/// status for a name that strips to nothing (then nothing is loaded), the
/// loading status otherwise.
pub fn begin_map_load(map_name: &str) -> (start: (String, GeometryStatus))
    ensures
        start.0@ == trim_suffix_repeatedly(map_name@, package_extension()),
        start.0@.len() == 0 ==> start.1@ == idle_status(),
        start.0@.len() > 0 ==> start.1@ == loading_status(start.0@),
        consistent_status(start.1@),
{
    let name = normalize_map_name(map_name);
    proof {
        law_reported_statuses_are_consistent(name@, None);
    }
    if name.as_str().is_empty() {
        return (name, GeometryStatus::default());
    }
    let loading = GeometryStatus {
        state: GeometryState::Loading,
        source: None,
        map: name.clone(),
        detail: "Resolving geometry backend".to_owned(),
    };
    assert(loading@ == loading_status(name@));
    (name, loading)
}

/// Whether a load that ended with `source` should copy the geometry into
/// the cache: only live geometry is worth keeping.
pub fn should_warm_cache(source: Option<GeometrySource>) -> (warm: bool)
    ensures
        warm == (source == Some(GeometrySource::RuntimeMapdata)),
{
    match source {
        Some(GeometrySource::RuntimeMapdata) => true,
        _ => false,
    }
}

/// Tries the three backends in the order [`next_load_action`] gives and
/// stops at the first that yields geometry; later backends are not run.
/// Returns the geometry with its source, and the status to report for
/// `map_name`.
pub fn resolve_geometry_load<B, RuntimeLoad, CacheLoad, RecoveryLoad>(
    map_name: &str,
    runtime_load: RuntimeLoad,
    cache_load: CacheLoad,
    recovery_load: RecoveryLoad,
) -> (outcome: (Option<(B, GeometrySource)>, GeometryStatus)) where
    RuntimeLoad: FnOnce() -> Option<B>,
    CacheLoad: FnOnce() -> Option<B>,
    RecoveryLoad: FnOnce() -> Option<B>,

    requires
        runtime_load.requires(()),
        cache_load.requires(()),
        recovery_load.requires(()),
    ensures
        match outcome.0 {
            Some((geometry, GeometrySource::RuntimeMapdata)) => runtime_load.ensures(
                (),
                Some(geometry),
            ),
            Some((geometry, GeometrySource::CacheBvh)) => {
                &&& runtime_load.ensures((), None)
                &&& cache_load.ensures((), Some(geometry))
            },
            Some((geometry, GeometrySource::Source2ViewerCurrentMap)) => {
                &&& runtime_load.ensures((), None)
                &&& cache_load.ensures((), None)
                &&& recovery_load.ensures((), Some(geometry))
            },
            None => {
                &&& runtime_load.ensures((), None)
                &&& cache_load.ensures((), None)
                &&& recovery_load.ensures((), None)
            },
        },
        outcome.1@ == resolved_status(map_name@, outcome_source(outcome.0)),
{
    let mut progress = LoadProgress::NothingTried;
    let runtime = runtime_load();
    progress = record_attempt(progress, runtime.is_some());
    if let Some(geometry) = runtime {
        return (Some((geometry, GeometrySource::RuntimeMapdata)), finished_status(map_name, progress));
    }
    assert(next_action(progress) == LoadAction::Run(GeometrySource::CacheBvh));
    let cached = cache_load();
    progress = record_attempt(progress, cached.is_some());
    if let Some(geometry) = cached {
        return (Some((geometry, GeometrySource::CacheBvh)), finished_status(map_name, progress));
    }
    assert(next_action(progress) == LoadAction::Run(GeometrySource::Source2ViewerCurrentMap));
    let recovered = recovery_load();
    progress = record_attempt(progress, recovered.is_some());
    match recovered {
        Some(geometry) => (
            Some((geometry, GeometrySource::Source2ViewerCurrentMap)),
            finished_status(map_name, progress),
        ),
        None => (None, finished_status(map_name, progress)),
    }
}


/// How the extraction backend is run.
#[derive(Debug, Clone, Copy, PartialEq, Eq, Structural)]
pub struct GeometryOptions {
    /// Extract again even where an earlier extraction left files behind.
    pub force_reparse: bool,
    /// Run the extraction tool found on the search path, not the bundled one.
    pub use_system_binary: bool,
}

impl Default for GeometryOptions {
    fn default() -> (options: Self)
        ensures
            !options.force_reparse,
            !options.use_system_binary,
    {
        GeometryOptions { force_reparse: false, use_system_binary: false }
    }
}

/// A status that can be reported: a source is named exactly when the state
/// is ready or a fallback, a ready status names the live backend, a
/// fallback names one of the two fallbacks, and an idle status is the
/// status before any map has been seen.
pub open spec fn consistent_status(status: StatusModel) -> bool {
    &&& (status.source is Some <==> (status.state == GeometryState::Ready || status.state
        == GeometryState::Fallback))
    &&& status.state == GeometryState::Ready ==> status.source == Some(
        GeometrySource::RuntimeMapdata,
    )
    &&& status.state == GeometryState::Fallback ==> (status.source == Some(GeometrySource::CacheBvh)
        || status.source == Some(GeometrySource::Source2ViewerCurrentMap))
    &&& status.state == GeometryState::Idle ==> status == idle_status()
}

/// Every status the loader reports is consistent: the idle status, the
/// loading status of any map, and the resolved status of any map and
/// outcome.
pub proof fn law_reported_statuses_are_consistent(map: Seq<char>, source: Option<GeometrySource>)
    ensures
        consistent_status(idle_status()),
        consistent_status(loading_status(map)),
        consistent_status(resolved_status(map, source)),
{
}

/// Whether `status` is one the loader reports.
pub fn is_consistent_status(status: &GeometryStatus) -> (consistent: bool)
    ensures
        consistent == consistent_status(status@),
{
    match status.state {
        GeometryState::Ready => match status.source {
            Some(GeometrySource::RuntimeMapdata) => true,
            _ => false,
        },
        GeometryState::Fallback => match status.source {
            Some(GeometrySource::CacheBvh) => true,
            Some(GeometrySource::Source2ViewerCurrentMap) => true,
            _ => false,
        },
        GeometryState::Idle => {
            let plain = status.source.is_none() && status.map.as_str().is_empty()
                && status.detail.as_str().is_empty();
            proof {
                if plain {
                    assert(status.map@ =~= Seq::<char>::empty());
                    assert(status.detail@ =~= Seq::<char>::empty());
                }
            }
            plain
        },
        _ => status.source.is_none(),
    }
}

/// Which extraction tool runs: the one found on the search path, or the
/// one shipped next to the program.
#[derive(Debug, Clone, Copy, PartialEq, Eq, Structural)]
pub enum ExtractionTool {
    OnSearchPath,
    Bundled,
}

/// The extraction tool to run: the one on the search path when asked for,
/// otherwise the bundled one if it is there; none when it is missing.
pub fn extraction_tool(use_system_binary: bool, bundled_present: bool) -> (tool: Option<ExtractionTool>)
    ensures
        use_system_binary ==> tool == Some(ExtractionTool::OnSearchPath),
        !use_system_binary && bundled_present ==> tool == Some(ExtractionTool::Bundled),
        !use_system_binary && !bundled_present ==> tool is None,
{
    if use_system_binary {
        Some(ExtractionTool::OnSearchPath)
    } else if bundled_present {
        Some(ExtractionTool::Bundled)
    } else {
        None
    }
}

/// The shared geometry state: the status shown to the user and the options
/// that the next extraction runs with. The program keeps one behind a lock.
/// The status held is always consistent.
#[derive(Debug)]
pub struct GeometryRegistry {
    status: GeometryStatus,
    options: GeometryOptions,
}

/// Mathematical model of a [`GeometryRegistry`].
pub struct RegistryModel {
    pub status: StatusModel,
    pub options: GeometryOptions,
}

impl View for GeometryRegistry {
    type V = RegistryModel;

    closed spec fn view(&self) -> RegistryModel {
        RegistryModel { status: self.status@, options: self.options }
    }
}

impl GeometryRegistry {
    #[verifier::type_invariant]
    spec fn holds_consistent_status(self) -> bool {
        consistent_status(self.status@)
    }

    /// An idle status and the default options.
    pub fn new() -> (registry: Self)
        ensures
            registry@.status == idle_status(),
            registry@.options == (GeometryOptions { force_reparse: false, use_system_binary: false }),
    {
        GeometryRegistry { status: GeometryStatus::default(), options: GeometryOptions::default() }
    }
}

/// Replaces the reported status, which must be one the loader reports;
/// the options stay.
pub fn set_geometry_status(registry: &mut GeometryRegistry, status: GeometryStatus)
    requires
        consistent_status(status@),
    ensures
        final(registry)@.status == status@,
        final(registry)@.options == old(registry)@.options,
{
    registry.status = status;
}

/// Replaces the extraction options; the status stays.
pub fn set_geometry_options(
    registry: &mut GeometryRegistry,
    force_reparse: bool,
    use_system_binary: bool,
)
    ensures
        final(registry)@.options == (GeometryOptions { force_reparse, use_system_binary }),
        final(registry)@.status == old(registry)@.status,
{
    proof {
        use_type_invariant(&*registry);
    }
    registry.options = GeometryOptions { force_reparse, use_system_binary };
}

/// The extraction options last set.
pub fn geometry_options(registry: &GeometryRegistry) -> (options: GeometryOptions)
    ensures
        options == registry@.options,
{
    registry.options
}

/// A copy of the status last set; it is always consistent.
pub fn geometry_status(registry: &GeometryRegistry) -> (status: GeometryStatus)
    ensures
        status@ == registry@.status,
        consistent_status(status@),
{
    proof {
        use_type_invariant(registry);
    }
    registry.status.duplicate()
}

/// `text` with every trailing copy of `suffix` removed, one after another.
pub open spec fn trim_suffix_repeatedly(text: Seq<char>, suffix: Seq<char>) -> Seq<char>
    decreases text.len(),
{
    if 0 < suffix.len() <= text.len() && text.subrange(text.len() - suffix.len(), text.len() as int)
        == suffix {
        trim_suffix_repeatedly(text.subrange(0, text.len() - suffix.len()), suffix)
    } else {
        text
    }
}

/// The package extension that map names may carry.
pub open spec fn package_extension() -> Seq<char> {
    ".vpk"@
}

/// `str::trim_end_matches` with a string pattern: the documentation states
/// that every suffix that matches is removed, repeatedly.
#[verifier::external_body]
fn trim_end_matches_str<'a>(text: &'a str, suffix: &str) -> (trimmed: &'a str)
    requires
        suffix@.len() > 0,
    ensures
        trimmed@ == trim_suffix_repeatedly(text@, suffix@),
{
    text.trim_end_matches(suffix)
}

/// What remains after stripping never ends in the suffix.
proof fn lemma_trimmed_has_no_suffix(text: Seq<char>, suffix: Seq<char>)
    requires
        suffix.len() > 0,
    ensures
        ({
            let t = trim_suffix_repeatedly(text, suffix);
            !(suffix.len() <= t.len() && t.subrange(t.len() - suffix.len(), t.len() as int) == suffix)
        }),
    decreases text.len(),
{
    if suffix.len() <= text.len() && text.subrange(text.len() - suffix.len(), text.len() as int)
        == suffix {
        lemma_trimmed_has_no_suffix(text.subrange(0, text.len() - suffix.len()), suffix);
    }
}

/// Stripping the package extension twice is stripping it once: a map name
/// that has been stripped is left as it is.
pub proof fn law_strip_extension_idempotent(name: Seq<char>)
    ensures
        trim_suffix_repeatedly(trim_suffix_repeatedly(name, package_extension()), package_extension())
            == trim_suffix_repeatedly(name, package_extension()),
{
    reveal_strlit(".vpk");
    lemma_trimmed_has_no_suffix(name, package_extension());
}

/// A map name given with its package extension strips to the same name as
/// the bare map name, so the loader treats both alike.
pub proof fn law_package_extension_ignored(name: Seq<char>)
    ensures
        trim_suffix_repeatedly(name + package_extension(), package_extension())
            == trim_suffix_repeatedly(name, package_extension()),
{
    reveal_strlit(".vpk");
    let text = name + package_extension();
    assert(text.subrange(text.len() - 4, text.len() as int) =~= package_extension());
    assert(text.subrange(0, text.len() - 4) =~= name);
}

/// The map's name without the package extension, as the loaders use it.
pub fn normalize_map_name(map_name: &str) -> (name: String)
    ensures
        name@ == trim_suffix_repeatedly(map_name@, package_extension()),
{
    let extension = ".vpk";
    proof {
        reveal_strlit(".vpk");
    }
    trim_end_matches_str(map_name, extension).to_owned()
}


/// The path that results from giving `path` the extension `extension`, as
/// the standard path type computes it (the extension of the last component
/// is replaced, or added when it has none).
pub uninterp spec fn path_with_extension(path: Seq<char>, extension: Seq<char>) -> Seq<char>;

/// A non-empty path of one component without a dot: a file name that has
/// no extension.
pub open spec fn bare_file_name(path: Seq<char>) -> bool {
    path.len() > 0 && !path.contains('/') && !path.contains('.')
}

/// `PathBuf::set_extension` on the path `path`, read back as text. The text
/// is UTF-8 because both inputs are. Claimed: the result depends on the two
/// texts alone, and, as the documentation says, a non-empty extension is
/// added after a dot to a file name that has none. Nothing is claimed of
/// other paths (replacing an extension, several components, dot files),
/// whose rules the name `path_with_extension` stands for. The documentation
/// says that an extension holding a path separator makes it panic;
/// `requires` rules that out.
#[verifier::external_body]
fn set_extension(path: &str, extension: &str) -> (result: String)
    requires
        !extension@.contains('/'),
    ensures
        result@ == path_with_extension(path@, extension@),
        bare_file_name(path@) && extension@.len() > 0 ==> result@ == path@ + seq!['.'] + extension@,
{
    let mut buffer = std::path::PathBuf::from(path);
    buffer.set_extension(extension);
    buffer.to_string_lossy().into_owned()
}

/// File name of the map's package: the stripped name with the package extension.
pub fn vpk_name(map_name: &str) -> (file: String)
    ensures
        file@ == path_with_extension(trim_suffix_repeatedly(map_name@, package_extension()), "vpk"@),
        bare_file_name(trim_suffix_repeatedly(map_name@, package_extension())) ==> file@
            == trim_suffix_repeatedly(map_name@, package_extension()) + seq!['.'] + "vpk"@,
{
    let extension = ".vpk";
    proof {
        reveal_strlit(".vpk");
        reveal_strlit("vpk");
    }
    set_extension(trim_end_matches_str(map_name, extension), "vpk")
}

/// File name of the map's cached geometry: the stripped name with the cache extension.
pub fn bvh_name(map_name: &str) -> (file: String)
    ensures
        file@ == path_with_extension(trim_suffix_repeatedly(map_name@, package_extension()), "bvh"@),
        bare_file_name(trim_suffix_repeatedly(map_name@, package_extension())) ==> file@
            == trim_suffix_repeatedly(map_name@, package_extension()) + seq!['.'] + "bvh"@,
{
    let extension = ".vpk";
    proof {
        reveal_strlit(".vpk");
        reveal_strlit("bvh");
    }
    set_extension(trim_end_matches_str(map_name, extension), "bvh")
}

/// Loads the geometry of `map_name` from the first backend that has it.
///
/// The name is first stripped of its package extension. An empty name loads
/// nothing and reports the idle status. Otherwise `publish` receives the
/// loading status before any backend runs; then the live backend runs, then
/// the cache and the extraction backend (each with the stripped name, the
/// extraction backend also with `options`), stopping at the first success.
/// Returns the geometry with its source and the status to report afterwards.
pub fn load_map_auto<B, RuntimeLoad, CacheLoad, RecoveryLoad, Publish>(
    map_name: &str,
    options: GeometryOptions,
    publish: Publish,
    runtime_load: RuntimeLoad,
    cache_load: CacheLoad,
    recovery_load: RecoveryLoad,
) -> (outcome: (Option<(B, GeometrySource)>, GeometryStatus)) where
    RuntimeLoad: FnOnce() -> Option<B>,
    CacheLoad: FnOnce(String) -> Option<B>,
    RecoveryLoad: FnOnce(String, GeometryOptions) -> Option<B>,
    Publish: Fn(GeometryStatus),

    requires
        forall|status: GeometryStatus| consistent_status(status@) ==> publish.requires((status,)),
        runtime_load.requires(()),
        forall|name: String| cache_load.requires((name,)),
        forall|name: String, opts: GeometryOptions| recovery_load.requires((name, opts)),
    ensures
        ({
            let name = trim_suffix_repeatedly(map_name@, package_extension());
            &&& consistent_status(outcome.1@)
            &&& if name.len() == 0 {
                &&& outcome.0 is None
                &&& outcome.1@ == idle_status()
            } else {
                &&& outcome.1@ == resolved_status(name, outcome_source(outcome.0))
                &&& match outcome.0 {
                    Some((geometry, GeometrySource::RuntimeMapdata)) => runtime_load.ensures(
                        (),
                        Some(geometry),
                    ),
                    Some((geometry, GeometrySource::CacheBvh)) => {
                        &&& runtime_load.ensures((), None)
                        &&& exists|n: String|
                            n@ == name && #[trigger] cache_load.ensures((n,), Some(geometry))
                    },
                    Some((geometry, GeometrySource::Source2ViewerCurrentMap)) => {
                        &&& runtime_load.ensures((), None)
                        &&& exists|n: String|
                            n@ == name && #[trigger] cache_load.ensures((n,), None)
                        &&& exists|n: String|
                            n@ == name && #[trigger] recovery_load.ensures(
                                (n, options),
                                Some(geometry),
                            )
                    },
                    None => {
                        &&& runtime_load.ensures((), None)
                        &&& exists|n: String|
                            n@ == name && #[trigger] cache_load.ensures((n,), None)
                        &&& exists|n: String|
                            n@ == name && #[trigger] recovery_load.ensures((n, options), None)
                    },
                }
            }
        }),
{
    let (name, first_status) = begin_map_load(map_name);
    if name.as_str().is_empty() {
        return (None, first_status);
    }
    publish(first_status);

    let cache_name = name.clone();
    let recovery_name = name.clone();
    let ghost cache_arg = cache_name;
    let ghost recovery_arg = recovery_name;
    let cached = move || -> (geometry: Option<B>)
        requires
            cache_load.requires((cache_name,)),
        ensures
            cache_load.ensures((cache_name,), geometry),
        { cache_load(cache_name) };
    let recovered = move || -> (geometry: Option<B>)
        requires
            recovery_load.requires((recovery_name, options)),
        ensures
            recovery_load.ensures((recovery_name, options), geometry),
        { recovery_load(recovery_name, options) };
    let outcome = resolve_geometry_load(name.as_str(), runtime_load, cached, recovered);
    proof {
        assert(cache_arg@ == name@);
        assert(recovery_arg@ == name@);
        law_reported_statuses_are_consistent(name@, outcome_source(outcome.0));
    }
    outcome
}

} // verus!
