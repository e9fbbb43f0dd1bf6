use std::cell::RefCell;

use deadlocked::geometry::{
    begin_map_load, extraction_tool, finished_status, is_consistent_status, next_load_action,
    record_attempt, should_warm_cache, ExtractionTool, LoadAction, LoadProgress,
    bvh_name, geometry_options, geometry_status, load_map_auto, normalize_map_name,
    resolve_geometry_load, set_geometry_options, set_geometry_status, vpk_name, GeometryOptions, GeometryRegistry, GeometrySource,
    GeometryState, GeometryStatus,
};

/// Stand-in for the map's bounding-volume hierarchy; the loaders only pass it on.
#[derive(Debug, Clone, PartialEq)]
struct Bvh {
    triangles: usize,
}

impl Bvh {
    fn new() -> Self {
        Bvh { triangles: 0 }
    }
}

#[test]
fn runtime_source_wins_before_fallbacks() {
    let calls = RefCell::new(Vec::new());
    let (_result, status) = resolve_geometry_load(
        "de_test",
        || {
            calls.borrow_mut().push("runtime");
            Some(Bvh::new())
        },
        || {
            calls.borrow_mut().push("cache");
            Some(Bvh::new())
        },
        || {
            calls.borrow_mut().push("s2v");
            Some(Bvh::new())
        },
    );

    assert_eq!(calls.into_inner(), vec!["runtime"]);
    assert_eq!(status.state, GeometryState::Ready);
    assert_eq!(status.source, Some(GeometrySource::RuntimeMapdata));
}

#[test]
fn cache_fallback_is_used_before_source2viewer() {
    let calls = RefCell::new(Vec::new());
    let (_result, status) = resolve_geometry_load(
        "de_test",
        || {
            calls.borrow_mut().push("runtime");
            None
        },
        || {
            calls.borrow_mut().push("cache");
            Some(Bvh::new())
        },
        || {
            calls.borrow_mut().push("s2v");
            Some(Bvh::new())
        },
    );

    assert_eq!(calls.into_inner(), vec!["runtime", "cache"]);
    assert_eq!(status.state, GeometryState::Fallback);
    assert_eq!(status.source, Some(GeometrySource::CacheBvh));
}

#[test]
fn source2viewer_recovery_runs_after_runtime_and_cache_fail() {
    let calls = RefCell::new(Vec::new());
    let (_result, status) = resolve_geometry_load(
        "de_test",
        || {
            calls.borrow_mut().push("runtime");
            None
        },
        || {
            calls.borrow_mut().push("cache");
            None
        },
        || {
            calls.borrow_mut().push("s2v");
            Some(Bvh::new())
        },
    );

    assert_eq!(calls.into_inner(), vec!["runtime", "cache", "s2v"]);
    assert_eq!(status.state, GeometryState::Fallback);
    assert_eq!(status.source, Some(GeometrySource::Source2ViewerCurrentMap));
}

#[test]
fn failed_status_is_reported_when_all_backends_fail() {
    let (_result, status) =
        resolve_geometry_load("de_test", || None::<Bvh>, || None, || None);

    assert_eq!(status.state, GeometryState::Failed);
    assert_eq!(status.source, None);
}

#[test]
fn resolved_status_texts_name_the_map_and_backend() {
    let (result, status) = resolve_geometry_load(
        "de_mirage",
        || None,
        || Some(Bvh { triangles: 3 }),
        || Some(Bvh { triangles: 9 }),
    );
    assert_eq!(result, Some((Bvh { triangles: 3 }, GeometrySource::CacheBvh)));
    assert_eq!(status.map, "de_mirage");
    assert_eq!(status.detail, "Runtime backend unavailable, using cached .bvh");

    let (result, status) = resolve_geometry_load("de_mirage", || Some(Bvh { triangles: 1 }), || None, || None);
    assert_eq!(result, Some((Bvh { triangles: 1 }, GeometrySource::RuntimeMapdata)));
    assert_eq!(status.detail, "Loaded live geometry from game memory");

    let (result, status) = resolve_geometry_load("de_mirage", || None, || None, || Some(Bvh { triangles: 2 }));
    assert_eq!(result, Some((Bvh { triangles: 2 }, GeometrySource::Source2ViewerCurrentMap)));
    assert_eq!(status.detail, "Recovered current map via Source2Viewer");

    let (result, status) = resolve_geometry_load("de_mirage", || None::<Bvh>, || None, || None);
    assert_eq!(result, None);
    assert_eq!(status.map, "de_mirage");
    assert_eq!(status.detail, "No runtime geometry, cache, or recovery path succeeded");
}

#[test]
fn labels_of_sources_and_states() {
    assert_eq!(GeometrySource::RuntimeMapdata.label(), "Runtime");
    assert_eq!(GeometrySource::CacheBvh.label(), "Cache fallback");
    assert_eq!(GeometrySource::Source2ViewerCurrentMap.label(), "Current-map extract");
    assert_eq!(GeometryState::Idle.label(), "Idle");
    assert_eq!(GeometryState::Loading.label(), "Loading");
    assert_eq!(GeometryState::Ready.label(), "Ready");
    assert_eq!(GeometryState::Fallback.label(), "Fallback");
    assert_eq!(GeometryState::Failed.label(), "Failed");
}

#[test]
fn map_names_lose_every_trailing_package_extension() {
    assert_eq!(normalize_map_name("de_dust2.vpk"), "de_dust2");
    assert_eq!(normalize_map_name("de_dust2.vpk.vpk"), "de_dust2");
    assert_eq!(normalize_map_name("de_dust2"), "de_dust2");
    assert_eq!(normalize_map_name(".vpk"), "");
    assert_eq!(normalize_map_name("maps/de.vpk.bsp"), "maps/de.vpk.bsp");
    // stripping twice changes nothing more
    let once = normalize_map_name("cs_office.vpk.vpk");
    assert_eq!(normalize_map_name(&once), once);
}

#[test]
fn empty_map_name_loads_nothing_and_reports_idle() {
    let published = RefCell::new(Vec::new());
    let ran = RefCell::new(false);
    let (result, status) = load_map_auto(
        ".vpk",
        GeometryOptions::default(),
        |status: GeometryStatus| published.borrow_mut().push(status.state),
        || {
            *ran.borrow_mut() = true;
            Some(Bvh::new())
        },
        |_name: String| Some(Bvh::new()),
        |_name: String, _options: GeometryOptions| Some(Bvh::new()),
    );
    assert_eq!(result, None);
    assert_eq!(status.state, GeometryState::Idle);
    assert_eq!(status.source, None);
    assert_eq!(status.map, "");
    assert!(published.borrow().is_empty());
    assert!(!*ran.borrow());
}

#[test]
fn load_map_auto_passes_the_stripped_name_and_options_to_the_fallbacks() {
    let published = RefCell::new(Vec::new());
    let seen = RefCell::new(Vec::new());
    let options = GeometryOptions { force_reparse: true, use_system_binary: false };
    let (result, status) = load_map_auto(
        "de_nuke.vpk",
        options,
        |status: GeometryStatus| published.borrow_mut().push((status.state, status.map.clone(), status.detail.clone())),
        || None,
        |name: String| {
            seen.borrow_mut().push(format!("cache:{name}"));
            None
        },
        |name: String, opts: GeometryOptions| {
            seen.borrow_mut().push(format!("s2v:{name}:{}", opts.force_reparse));
            Some(Bvh { triangles: 5 })
        },
    );
    assert_eq!(result, Some((Bvh { triangles: 5 }, GeometrySource::Source2ViewerCurrentMap)));
    assert_eq!(status.state, GeometryState::Fallback);
    assert_eq!(status.map, "de_nuke");
    assert_eq!(seen.into_inner(), vec!["cache:de_nuke".to_string(), "s2v:de_nuke:true".to_string()]);
    assert_eq!(
        published.into_inner(),
        vec![(GeometryState::Loading, "de_nuke".to_string(), "Resolving geometry backend".to_string())]
    );
}

#[test]
fn registry_keeps_status_and_options_apart() {
    let mut registry = GeometryRegistry::new();
    assert_eq!(geometry_status(&registry).state, GeometryState::Idle);
    assert_eq!(geometry_options(&registry), GeometryOptions::default());

    set_geometry_options(&mut registry, true, true);
    assert_eq!(
        geometry_options(&registry),
        GeometryOptions { force_reparse: true, use_system_binary: true }
    );
    assert_eq!(geometry_status(&registry).state, GeometryState::Idle);

    let (_, status) = resolve_geometry_load("de_test", || Some(Bvh::new()), || None, || None);
    set_geometry_status(&mut registry, status);
    let read = geometry_status(&registry);
    assert_eq!(read.state, GeometryState::Ready);
    assert_eq!(read.source, Some(GeometrySource::RuntimeMapdata));
    assert_eq!(read.map, "de_test");
    assert_eq!(
        geometry_options(&registry),
        GeometryOptions { force_reparse: true, use_system_binary: true }
    );
}

#[test]
fn package_and_cache_file_names_follow_the_stripped_map_name() {
    assert_eq!(vpk_name("de_dust2.vpk"), "de_dust2.vpk");
    assert_eq!(vpk_name("de_dust2"), "de_dust2.vpk");
    assert_eq!(bvh_name("de_dust2.vpk"), "de_dust2.bvh");
    assert_eq!(bvh_name("de_mirage"), "de_mirage.bvh");
    assert_eq!(bvh_name("de_inferno.vpk.vpk"), "de_inferno.bvh");
}

#[test]
fn a_map_name_with_its_package_extension_loads_like_the_bare_name() {
    let with_extension = load_map_auto(
        "de_ancient.vpk",
        GeometryOptions::default(),
        |_status: GeometryStatus| {},
        || None::<Bvh>,
        |name: String| if name == "de_ancient" { Some(Bvh::new()) } else { None },
        |_name: String, _options: GeometryOptions| None,
    );
    let bare = load_map_auto(
        "de_ancient",
        GeometryOptions::default(),
        |_status: GeometryStatus| {},
        || None::<Bvh>,
        |name: String| if name == "de_ancient" { Some(Bvh::new()) } else { None },
        |_name: String, _options: GeometryOptions| None,
    );
    assert_eq!(with_extension.0, bare.0);
    assert_eq!(with_extension.1.state, bare.1.state);
    assert_eq!(with_extension.1.source, Some(GeometrySource::CacheBvh));
    assert_eq!(with_extension.1.map, "de_ancient");
    assert_eq!(bare.1.map, "de_ancient");
}

/// Runs the load steps with backends that deliver as `delivers` says, and
/// returns the backends asked, in order, with the final progress.
fn drive(delivers: [bool; 3]) -> (Vec<GeometrySource>, LoadProgress) {
    let mut asked = Vec::new();
    let mut progress = LoadProgress::NothingTried;
    while let LoadAction::Run(backend) = next_load_action(progress) {
        asked.push(backend);
        let index = match backend {
            GeometrySource::RuntimeMapdata => 0,
            GeometrySource::CacheBvh => 1,
            GeometrySource::Source2ViewerCurrentMap => 2,
        };
        progress = record_attempt(progress, delivers[index]);
    }
    (asked, progress)
}

#[test]
fn load_steps_stop_at_the_first_backend_that_delivers() {
    assert_eq!(
        drive([true, true, true]),
        (vec![GeometrySource::RuntimeMapdata], LoadProgress::Loaded(GeometrySource::RuntimeMapdata))
    );
    assert_eq!(
        drive([false, true, true]),
        (
            vec![GeometrySource::RuntimeMapdata, GeometrySource::CacheBvh],
            LoadProgress::Loaded(GeometrySource::CacheBvh)
        )
    );
    assert_eq!(
        drive([false, false, true]),
        (
            vec![
                GeometrySource::RuntimeMapdata,
                GeometrySource::CacheBvh,
                GeometrySource::Source2ViewerCurrentMap
            ],
            LoadProgress::Loaded(GeometrySource::Source2ViewerCurrentMap)
        )
    );
    let (asked, progress) = drive([false, false, false]);
    assert_eq!(asked.len(), 3);
    assert_eq!(progress, LoadProgress::AllFailed);
    let status = finished_status("de_test", progress);
    assert_eq!(status.state, GeometryState::Failed);
    assert_eq!(status.source, None);
    let ready = finished_status("de_test", LoadProgress::Loaded(GeometrySource::RuntimeMapdata));
    assert_eq!(ready.state, GeometryState::Ready);
    assert_eq!(ready.detail, "Loaded live geometry from game memory");
}

#[test]
fn a_load_begins_with_the_loading_status_or_idle_for_an_empty_name() {
    let (name, status) = begin_map_load("de_vertigo.vpk");
    assert_eq!(name, "de_vertigo");
    assert_eq!(status.state, GeometryState::Loading);
    assert_eq!(status.map, "de_vertigo");
    assert_eq!(status.detail, "Resolving geometry backend");
    let (name, status) = begin_map_load(".vpk");
    assert_eq!(name, "");
    assert_eq!(status.state, GeometryState::Idle);
    assert_eq!(status.map, "");
}

#[test]
fn only_statuses_the_loader_reports_are_consistent() {
    assert!(is_consistent_status(&GeometryStatus::default()));
    assert!(is_consistent_status(&begin_map_load("de_x").1));
    assert!(is_consistent_status(&finished_status("de_x", LoadProgress::AllFailed)));
    let odd = GeometryStatus {
        state: GeometryState::Ready,
        source: Some(GeometrySource::CacheBvh),
        map: "de_x".to_string(),
        detail: String::new(),
    };
    assert!(!is_consistent_status(&odd));
    let idle_with_map = GeometryStatus { map: "de_x".to_string(), ..GeometryStatus::default() };
    assert!(!is_consistent_status(&idle_with_map));
}

#[test]
fn cache_warming_and_tool_choice() {
    assert!(should_warm_cache(Some(GeometrySource::RuntimeMapdata)));
    assert!(!should_warm_cache(Some(GeometrySource::CacheBvh)));
    assert!(!should_warm_cache(None));
    assert_eq!(extraction_tool(true, false), Some(ExtractionTool::OnSearchPath));
    assert_eq!(extraction_tool(false, true), Some(ExtractionTool::Bundled));
    assert_eq!(extraction_tool(false, false), None);
}
