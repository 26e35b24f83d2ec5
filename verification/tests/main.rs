use javascript_globals::compose::{
    compose_registry, get_diff, layered, new_globals_2017, new_globals_2020, new_globals_2021,
    new_globals_2025, to_env_vars,
};
use javascript_globals::env::Context;
use javascript_globals::order::{str_eq, str_lt};
use rustc_hash::FxHashMap;

fn table(pairs: &[(&str, bool)]) -> FxHashMap<String, bool> {
    let mut m: FxHashMap<String, bool> = FxHashMap::default();
    for (k, v) in pairs {
        m.insert((*k).to_string(), *v);
    }
    m
}

fn base_catalogue() -> FxHashMap<String, FxHashMap<String, bool>> {
    let mut c: FxHashMap<String, FxHashMap<String, bool>> = FxHashMap::default();
    for name in [
        "es5",
        "browser",
        "node",
        "shared-node-browser",
        "worker",
        "serviceworker",
        "amd",
        "applescript",
        "atomtest",
        "commonjs",
        "embertest",
        "greasemonkey",
        "jasmine",
        "jest",
        "jquery",
        "meteor",
        "mocha",
        "mongo",
        "nashorn",
        "protractor",
        "prototypejs",
        "phantomjs",
        "shelljs",
        "webextensions",
        "qunit",
        "vitest",
    ] {
        c.insert(name.to_string(), table(&[]));
    }
    c.insert(
        "builtin".to_string(),
        table(&[("undefined", false), ("Date", false), ("Infinity", false)]),
    );
    c.insert(
        "es2015".to_string(),
        table(&[("Promise", false), ("Map", false)]),
    );
    c
}

fn compose(c: &FxHashMap<String, FxHashMap<String, bool>>) -> Context {
    match compose_registry(c) {
        Ok(ctx) => ctx,
        Err(name) => panic!("missing environment: {name}"),
    }
}

#[test]
fn test() {
    let ctx = compose(&base_catalogue());
    assert!(!ctx.lookup("builtin", "Date").unwrap());
}

#[test]
fn test_audio_worklet() {
    let ctx = compose(&base_catalogue());
    assert!(ctx.lookup_env("audioWorklet").is_some());
    assert!(!ctx.lookup("audioWorklet", "AudioWorkletGlobalScope").unwrap());
    assert!(!ctx.lookup("audioWorklet", "AudioWorkletProcessor").unwrap());
    assert!(!ctx.lookup("audioWorklet", "WorkletGlobalScope").unwrap());
    assert!(!ctx.lookup("audioWorklet", "currentFrame").unwrap());
    assert!(!ctx.lookup("audioWorklet", "currentTime").unwrap());
    assert!(!ctx.lookup("audioWorklet", "registerProcessor").unwrap());
    assert!(!ctx.lookup("audioWorklet", "sampleRate").unwrap());
}

#[test]
fn edition_delta_scenario() {
    let ctx = compose(&base_catalogue());
    // The 2015 delta over es5 is exactly {Promise, Map}, both read-only.
    assert_eq!(ctx.lookup("es2015", "Promise"), Some(false));
    assert_eq!(ctx.lookup("es2015", "Map"), Some(false));
    let es2015 = ctx.lookup_env("es2015").unwrap();
    assert_eq!(es2015.vars.len(), 2);
    // es6 and es2016 resolve to the same set.
    for alias in ["es6", "es2016"] {
        let env = ctx.lookup_env(alias).unwrap();
        assert_eq!(env.vars.len(), 2);
        assert_eq!(ctx.lookup(alias, "Promise"), Some(false));
        assert_eq!(ctx.lookup(alias, "Map"), Some(false));
    }
    // Atomics first appears at es2017 and stays in every later edition.
    for name in ["builtin", "es6", "es2015", "es2016"] {
        assert_eq!(ctx.lookup(name, "Atomics"), None);
    }
    for name in [
        "es2017", "es2018", "es2019", "es2020", "es2021", "es2022", "es2023", "es2024", "es2025",
        "es2026",
    ] {
        assert_eq!(ctx.lookup(name, "Atomics"), Some(false));
    }
}

#[test]
fn editions_accumulate_chronologically() {
    let ctx = compose(&base_catalogue());
    // Everything in an earlier cumulative edition is in every later one.
    let editions = [
        "es2015", "es2017", "es2020", "es2021", "es2025",
    ];
    for (i, earlier) in editions.iter().enumerate() {
        let earlier_env = ctx.lookup_env(earlier).unwrap();
        for later in &editions[i..] {
            for var in &earlier_env.vars {
                assert_eq!(ctx.lookup(later, &var.name), Some(var.writeable));
            }
        }
    }
    assert_eq!(ctx.lookup("es2020", "BigInt"), Some(false));
    assert_eq!(ctx.lookup("es2021", "WeakRef"), Some(false));
    assert_eq!(ctx.lookup("es2025", "Float16Array"), Some(false));
    assert_eq!(ctx.lookup("es2019", "BigInt"), None);
    assert_eq!(ctx.lookup("es2020", "WeakRef"), None);
    assert_eq!(ctx.lookup("es2024", "Float16Array"), None);
}

#[test]
fn unknown_environment_absent() {
    let ctx = compose(&base_catalogue());
    assert!(ctx.lookup_env("es1999").is_none());
    assert!(ctx.lookup("es1999", "Date").is_none());
    assert!(ctx.lookup("builtin", "NotAGlobal").is_none());
}

#[test]
fn missing_environment_is_fatal() {
    let mut c = base_catalogue();
    c.remove("node");
    match compose_registry(&c) {
        Ok(_) => panic!("composition must fail on a missing required environment"),
        Err(name) => assert_eq!(name, "node"),
    }
    let mut c2 = base_catalogue();
    c2.remove("es5");
    match compose_registry(&c2) {
        Ok(_) => panic!("composition must fail on a missing diff anchor"),
        Err(name) => assert_eq!(name, "es5"),
    }
}

#[test]
fn diff_excludes_base_and_keeps_flags() {
    let current = table(&[("alpha", true), ("beta", false), ("gamma", false)]);
    let prev = table(&[("beta", false), ("delta", true)]);
    let d = get_diff(&current, &prev);
    assert_eq!(d.len(), 2);
    assert_eq!(d["alpha"], true);
    assert_eq!(d["gamma"], false);
    assert!(!d.contains_key("beta"));
    assert!(!d.contains_key("delta"));
}

#[test]
fn layering_last_write_wins() {
    let base = table(&[("shared", false), ("ours", false)]);
    let overlay = table(&[("shared", true), ("theirs", true)]);
    let merged = layered(&base, &overlay);
    assert_eq!(merged.len(), 3);
    assert_eq!(merged["shared"], true);
    assert_eq!(merged["ours"], false);
    assert_eq!(merged["theirs"], true);
}

#[test]
fn curated_delta_tables() {
    let d2017 = new_globals_2017();
    assert_eq!(d2017.len(), 2);
    assert_eq!(d2017["Atomics"], false);
    assert_eq!(d2017["SharedArrayBuffer"], false);
    let d2020 = new_globals_2020();
    assert_eq!(d2020.len(), 4);
    assert_eq!(d2020["globalThis"], false);
    let d2021 = new_globals_2021();
    assert_eq!(d2021.len(), 3);
    assert_eq!(d2021["AggregateError"], false);
    let d2025 = new_globals_2025();
    assert_eq!(d2025.len(), 2);
    assert_eq!(d2025["Iterator"], false);
}

#[test]
fn emitted_records_are_sorted() {
    let t = table(&[("zeta", false), ("Alpha", true), ("beta", false), ("Beta", true)]);
    let vars = to_env_vars(&t);
    let names: Vec<&str> = vars.iter().map(|v| v.name.as_str()).collect();
    assert_eq!(names, vec!["Alpha", "Beta", "beta", "zeta"]);
    assert_eq!(vars[0].writeable, true);
    assert_eq!(vars[2].writeable, false);
}

#[test]
fn generation_idempotent() {
    let ctx1 = compose(&base_catalogue());
    let ctx2 = compose(&base_catalogue());
    let envs1 = ctx1.envs();
    let envs2 = ctx2.envs();
    assert_eq!(envs1.len(), envs2.len());
    for (e1, e2) in envs1.iter().zip(envs2.iter()) {
        assert_eq!(e1.name, e2.name);
        assert_eq!(e1.vars.len(), e2.vars.len());
        for (v1, v2) in e1.vars.iter().zip(e2.vars.iter()) {
            assert_eq!(v1.name, v2.name);
            assert_eq!(v1.writeable, v2.writeable);
        }
    }
}

#[test]
fn alias_editions_identical() {
    let ctx = compose(&base_catalogue());
    let canon = ctx.lookup_env("es2015").unwrap();
    for alias in ["es6", "es2016"] {
        let env = ctx.lookup_env(alias).unwrap();
        assert_eq!(env.vars.len(), canon.vars.len());
        for (a, b) in env.vars.iter().zip(canon.vars.iter()) {
            assert_eq!(a.name, b.name);
            assert_eq!(a.writeable, b.writeable);
        }
    }
}

#[test]
fn framework_overlays_standalone() {
    let ctx = compose(&base_catalogue());
    // No edition global leaks into a curated framework environment.
    assert!(ctx.lookup("vue", "Promise").is_none());
    assert!(ctx.lookup("vue", "Atomics").is_none());
    assert_eq!(ctx.lookup("vue", "defineProps"), Some(false));
    assert_eq!(ctx.lookup_env("vue").unwrap().vars.len(), 7);
    assert_eq!(ctx.lookup("svelte", "$state"), Some(false));
    assert!(ctx.lookup("svelte", "Map").is_none());
    assert_eq!(ctx.lookup("astro", "Astro"), Some(false));
    // And no framework global leaks into an edition.
    assert!(ctx.lookup("es2026", "defineProps").is_none());
    assert!(ctx.lookup("builtin", "$state").is_none());
}

#[test]
fn registry_order_is_fixed() {
    let ctx = compose(&base_catalogue());
    let envs = ctx.envs();
    assert_eq!(envs.len(), 43);
    assert_eq!(envs[0].name, "builtin");
    assert_eq!(envs[1].name, "es6");
    assert_eq!(envs[14].name, "browser");
    assert_eq!(envs[15].name, "audioWorklet");
    assert_eq!(envs[42].name, "vue");
}

#[test]
fn name_order_is_byte_lexicographic() {
    assert!(str_lt("Date", "Infinity"));
    assert!(!str_lt("Infinity", "Date"));
    assert!(!str_lt("Date", "Date"));
    assert!(str_lt("Beta", "beta"));
    assert!(str_lt("al", "alpha"));
    assert!(str_eq("alpha", "alpha"));
    assert!(!str_eq("alpha", "Alpha"));
}
