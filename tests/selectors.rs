use build_select::config::Config;
use build_select::constants::{Adapter, Platform};
use build_select::utils::{contains_circom, contains_halo2, mentions_adapter, AdapterSelector, PlatformSelector};

fn labels(xs: &[&str]) -> Vec<String> {
    xs.iter().map(|s| s.to_string()).collect()
}

/// Answers a question the way a user who accepts the defaults would.
fn accept_defaults(defaults: &[bool]) -> Vec<usize> {
    (0..defaults.len()).filter(|&i| defaults[i]).collect()
}

#[test]
fn adapter_construct_round_trip() {
    for indices in [vec![], vec![0], vec![1], vec![1, 0], vec![0, 1, 1, 0]] {
        let s = AdapterSelector::construct(indices.clone());
        assert_eq!(s.selections(), indices);
    }
}

#[test]
fn adapter_contains_iff_index_selected() {
    let s = AdapterSelector::construct(vec![1]);
    assert!(s.contains(Adapter::Halo2));
    assert!(!s.contains(Adapter::Circom));
    let both = AdapterSelector::construct(vec![1, 0]);
    assert!(both.contains(Adapter::Circom));
    assert!(both.contains(Adapter::Halo2));
    let none = AdapterSelector::construct(vec![]);
    assert!(!none.contains(Adapter::Circom));
}

#[test]
fn adapter_prompt_lists_catalog_unchecked() {
    let p = AdapterSelector::prompt();
    assert_eq!(p.options, labels(&["circom", "halo2"]));
    assert_eq!(p.defaults, vec![false, false]);
    assert_eq!(p.title, "Pick the adapters you want to use (multiple selection with space)");
    assert_eq!(p.empty_error, "No adapters selected. Use space to select an adapter");
}

#[test]
fn adapter_select_keeps_pick_order() {
    let s = AdapterSelector::select(vec![1, 0]);
    assert_eq!(s.selections(), vec![1, 0]);
}

#[test]
fn registry_positions_and_labels() {
    assert_eq!(Adapter::from_index(0), Adapter::Circom);
    assert_eq!(Adapter::Halo2.as_usize(), 1);
    assert_eq!(Adapter::Halo2.as_str(), "halo2");
    assert_eq!(Platform::from_index(2), Platform::Web);
    assert_eq!(Platform::Android.as_usize(), 1);
    assert_eq!(Platform::Ios.as_str(), "ios");
    assert!(Platform::Ios.has_archs());
    assert!(!Platform::Web.has_archs());
    assert!(Platform::Web.archs().is_empty());
    assert_eq!(Platform::Android.archs().len(), 4);
}

#[test]
fn platform_label_outside_catalog_is_rejected() {
    assert_eq!(Platform::from_label("ios"), Some(Platform::Ios));
    assert_eq!(Platform::from_label("android"), Some(Platform::Android));
    assert_eq!(Platform::from_label("web"), Some(Platform::Web));
    assert_eq!(Platform::from_label("IOS"), None);
    assert_eq!(Platform::from_label("linux"), None);
    assert_eq!(Platform::from_label(""), None);
}

#[test]
fn contains_circom_ignores_case() {
    assert!(contains_circom("test-vectors/circom/multiplier2.zkey"));
    assert!(contains_circom("Projects/MyCIRCOM/keys"));
    assert!(!contains_circom("test-vectors/halo2/plonk_fibonacci_pk.bin"));
    assert!(!contains_circom(""));
}

#[test]
fn contains_halo2_ignores_case() {
    assert!(contains_halo2("test-vectors/halo2/plonk_fibonacci_pk.bin"));
    assert!(contains_halo2("HALO2_keys"));
    assert!(!contains_halo2("test-vectors/circom/multiplier2.zkey"));
    assert!(!contains_halo2("halo"));
}

#[test]
fn mentions_adapter_on_lowered_text() {
    assert!(mentions_adapter("circom", Adapter::Circom));
    assert!(mentions_adapter("a/b/xcircomx", Adapter::Circom));
    assert!(!mentions_adapter("circo", Adapter::Circom));
    assert!(!mentions_adapter("CIRCOM", Adapter::Circom));
    assert!(mentions_adapter("halo2", Adapter::Halo2));
}

#[test]
fn platform_eq_is_order_sensitive() {
    let a = PlatformSelector::construct(labels(&["ios", "android"]));
    let b = PlatformSelector::construct(labels(&["android", "ios"]));
    assert!(!a.eq(&b.platforms));
    assert!(!b.eq(&a.platforms));
    assert!(a.eq(&vec![Platform::Ios, Platform::Android]));
    assert!(!a.eq(&vec![Platform::Ios]));
}

#[test]
fn platform_construct_keeps_order() {
    let s = PlatformSelector::construct(labels(&["web", "ios"]));
    assert_eq!(s.platforms, vec![Platform::Web, Platform::Ios]);
    assert!(s.contains(Platform::Web));
    assert!(!s.contains(Platform::Android));
}

#[test]
fn platform_prompt_defaults_follow_config() {
    let config = Config { target_platforms: labels(&["ios"]) };
    let p = PlatformSelector::prompt(&config);
    assert_eq!(p.defaults, vec![true, false, false]);
    assert_eq!(p.options, labels(&["ios", "android", "web"]));
    let config = Config { target_platforms: labels(&["web", "android"]) };
    assert_eq!(PlatformSelector::prompt(&config).defaults, vec![false, true, true]);
    let config = Config { target_platforms: vec![] };
    assert_eq!(PlatformSelector::prompt(&config).defaults, vec![false, false, false]);
}

#[test]
fn platform_select_from_picks() {
    let s = PlatformSelector::select(vec![2, 0]);
    assert_eq!(s.platforms, vec![Platform::Web, Platform::Ios]);
}

#[test]
fn arch_prompt_checks_every_architecture() {
    let p = PlatformSelector::select_multi_archs(Platform::Ios);
    assert_eq!(p.title, "Select ios architecture(s) to compile (default: all)");
    assert_eq!(
        p.empty_error,
        "No architectures selected for ios. Please select at least one architecture."
    );
    assert_eq!(
        p.options,
        labels(&["aarch64-apple-ios", "aarch64-apple-ios-sim", "x86_64-apple-ios"])
    );
    assert_eq!(p.defaults, vec![true, true, true]);
}

#[test]
fn select_archs_with_defaults_takes_whole_catalog() {
    let s = PlatformSelector::construct(labels(&["ios"]));
    let prompts = s.arch_prompts();
    assert_eq!(prompts.len(), 1);
    let answers: Vec<Vec<usize>> = prompts.iter().map(|p| accept_defaults(&p.defaults)).collect();
    let archs = s.select_archs(&answers);
    assert_eq!(
        archs.get("ios"),
        Some(&labels(&["aarch64-apple-ios", "aarch64-apple-ios-sim", "x86_64-apple-ios"]))
    );
    assert_eq!(archs.get("android"), None);
    assert_eq!(archs.get("web"), None);
}

#[test]
fn select_archs_skips_web() {
    let s = PlatformSelector::construct(labels(&["web", "android", "ios"]));
    let prompts = s.arch_prompts();
    assert_eq!(prompts.len(), 2);
    assert!(prompts[0].title.contains("android"));
    assert!(prompts[1].title.contains("ios"));
    let archs = s.select_archs(&vec![vec![3, 0], vec![2]]);
    assert_eq!(archs.get("web"), None);
    assert_eq!(
        archs.get("android"),
        Some(&labels(&["aarch64-linux-android", "x86_64-linux-android"]))
    );
    assert_eq!(archs.get("ios"), Some(&labels(&["x86_64-apple-ios"])));
    assert!(!archs.is_empty());
}

#[test]
fn select_archs_web_only_is_empty() {
    let s = PlatformSelector::construct(labels(&["web"]));
    assert!(s.arch_prompts().is_empty());
    let archs = s.select_archs(&vec![]);
    assert!(archs.is_empty());
    assert_eq!(archs.get("web"), None);
}

#[test]
fn select_archs_later_answer_replaces_earlier() {
    let s = PlatformSelector::construct(labels(&["ios", "ios"]));
    assert_eq!(s.arch_prompts().len(), 2);
    let archs = s.select_archs(&vec![vec![0], vec![1]]);
    assert_eq!(archs.get("ios"), Some(&labels(&["aarch64-apple-ios-sim"])));
}
