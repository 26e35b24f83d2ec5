//! The environment composer and table emitter: edition deltas, cumulative
//! layering, curated overlays, and registry composition.
//!
//! The composed registry holds, in a fixed recognized order: the baseline
//! `builtin` environment, one cumulative environment per language edition
//! (aliases reuse their canonical edition's table), the host platforms, and
//! the frameworks.  Curated overlay environments (`audioWorklet`, `astro`,
//! `svelte`, `vue`) are standalone: they are never layered onto an edition
//! and no edition delta is layered into them.

use vstd::prelude::*;
use rustc_hash::FxHashMap;
use crate::env::Env;
use crate::env::EnvVar;
use crate::env::Context;
use crate::env::var_pairs;
use crate::env::pairs_to_map;
use crate::env::strictly_sorted_names;
use crate::env::sort_env_vars;
use crate::env::lemma_sorted_implies_distinct;
use crate::env::lemma_pairs_match_map;
use crate::env::lemma_sorted_pairs_unique;
use crate::env::lemma_find_env_at_index;
use crate::env::find_env;
use crate::table::table_contents;
use crate::table::catalogue_contents;
use crate::table::table_new;
use crate::table::table_insert;
use crate::table::table_contains_key;
use crate::table::table_entries;
use crate::table::catalogue_get;
use crate::table::entry_pairs;
use crate::table::empty_table;

verus! {

/// The identifiers present in `current` and absent from `base`, with the
/// flags of `current`.
pub open spec fn diff_spec(current: Map<Seq<char>, bool>, prev: Map<Seq<char>, bool>) -> Map<
    Seq<char>,
    bool,
> {
    current.remove_keys(prev.dom())
}

/// Curated delta: globals newly introduced by the 2017 edition.
pub open spec fn globals_2017_spec() -> Map<Seq<char>, bool> {
    map!["Atomics"@ => false, "SharedArrayBuffer"@ => false]
}

/// Curated delta: globals newly introduced by the 2020 edition.
pub open spec fn globals_2020_spec() -> Map<Seq<char>, bool> {
    map![
        "BigInt"@ => false,
        "BigInt64Array"@ => false,
        "BigUint64Array"@ => false,
        "globalThis"@ => false,
    ]
}

/// Curated delta: globals newly introduced by the 2021 edition.
pub open spec fn globals_2021_spec() -> Map<Seq<char>, bool> {
    map!["AggregateError"@ => false, "FinalizationRegistry"@ => false, "WeakRef"@ => false]
}

/// Curated delta: globals newly introduced by the 2025 edition.
pub open spec fn globals_2025_spec() -> Map<Seq<char>, bool> {
    map!["Float16Array"@ => false, "Iterator"@ => false]
}

/// Curated overlay: the audio-processing worklet scope.
pub open spec fn audio_worklet_spec() -> Map<Seq<char>, bool> {
    map![
        "AudioWorkletGlobalScope"@ => false,
        "AudioWorkletProcessor"@ => false,
        "WorkletGlobalScope"@ => false,
        "currentFrame"@ => false,
        "currentTime"@ => false,
        "registerProcessor"@ => false,
        "sampleRate"@ => false,
    ]
}

/// Curated overlay: globals the Astro compiler provides.
pub open spec fn astro_spec() -> Map<Seq<char>, bool> {
    map!["Astro"@ => false, "Fragment"@ => false]
}

/// Curated overlay: the Svelte compiler's rune macros.
pub open spec fn svelte_spec() -> Map<Seq<char>, bool> {
    map![
        "$bindable"@ => false,
        "$derived"@ => false,
        "$effect"@ => false,
        "$host"@ => false,
        "$inspect"@ => false,
        "$props"@ => false,
        "$state"@ => false,
    ]
}

/// Curated overlay: the Vue compiler's script-setup macros.
pub open spec fn vue_spec() -> Map<Seq<char>, bool> {
    map![
        "defineEmits"@ => false,
        "defineExpose"@ => false,
        "defineModel"@ => false,
        "defineOptions"@ => false,
        "defineProps"@ => false,
        "defineSlots"@ => false,
        "withDefaults"@ => false,
    ]
}

/// Cumulative edition tables: the 2015-over-es5 delta, then each curated
/// delta layered on everything before it, in chronological order.
pub open spec fn cumulative_es2015(c: Map<Seq<char>, Map<Seq<char>, bool>>) -> Map<Seq<char>, bool> {
    diff_spec(c["es2015"@], c["es5"@])
}

pub open spec fn cumulative_es2017(c: Map<Seq<char>, Map<Seq<char>, bool>>) -> Map<Seq<char>, bool> {
    cumulative_es2015(c).union_prefer_right(globals_2017_spec())
}

pub open spec fn cumulative_es2020(c: Map<Seq<char>, Map<Seq<char>, bool>>) -> Map<Seq<char>, bool> {
    cumulative_es2017(c).union_prefer_right(globals_2020_spec())
}

pub open spec fn cumulative_es2021(c: Map<Seq<char>, Map<Seq<char>, bool>>) -> Map<Seq<char>, bool> {
    cumulative_es2020(c).union_prefer_right(globals_2021_spec())
}

pub open spec fn cumulative_es2025(c: Map<Seq<char>, Map<Seq<char>, bool>>) -> Map<Seq<char>, bool> {
    cumulative_es2021(c).union_prefer_right(globals_2025_spec())
}

/// The cumulative edition tables in chronological order.
pub open spec fn cumulative_chain(c: Map<Seq<char>, Map<Seq<char>, bool>>) -> Seq<
    Map<Seq<char>, bool>,
> {
    seq![
        cumulative_es2015(c),
        cumulative_es2017(c),
        cumulative_es2020(c),
        cumulative_es2021(c),
        cumulative_es2025(c),
    ]
}

/// The environment names the catalogue must supply, in the order they are
/// demanded.
pub open spec fn required_names() -> Seq<Seq<char>> {
    seq![
        "builtin"@,
        "es5"@,
        "es2015"@,
        "browser"@,
        "node"@,
        "shared-node-browser"@,
        "worker"@,
        "serviceworker"@,
        "amd"@,
        "applescript"@,
        "atomtest"@,
        "commonjs"@,
        "embertest"@,
        "greasemonkey"@,
        "jasmine"@,
        "jest"@,
        "jquery"@,
        "meteor"@,
        "mocha"@,
        "mongo"@,
        "nashorn"@,
        "protractor"@,
        "prototypejs"@,
        "phantomjs"@,
        "shelljs"@,
        "webextensions"@,
        "qunit"@,
        "vitest"@,
    ]
}

/// The composed registry a catalogue determines: every environment name with
/// its identifier table, in the emitted order.
pub open spec fn registry_spec(c: Map<Seq<char>, Map<Seq<char>, bool>>) -> Seq<
    (Seq<char>, Map<Seq<char>, bool>),
> {
    seq![
        ("builtin"@, c["builtin"@]),
        ("es6"@, cumulative_es2015(c)),
        ("es2015"@, cumulative_es2015(c)),
        ("es2016"@, cumulative_es2015(c)),
        ("es2017"@, cumulative_es2017(c)),
        ("es2018"@, cumulative_es2017(c)),
        ("es2019"@, cumulative_es2017(c)),
        ("es2020"@, cumulative_es2020(c)),
        ("es2021"@, cumulative_es2021(c)),
        ("es2022"@, cumulative_es2021(c)),
        ("es2023"@, cumulative_es2021(c)),
        ("es2024"@, cumulative_es2021(c)),
        ("es2025"@, cumulative_es2025(c)),
        ("es2026"@, cumulative_es2025(c)),
        ("browser"@, c["browser"@]),
        ("audioWorklet"@, audio_worklet_spec()),
        ("node"@, c["node"@]),
        ("shared-node-browser"@, c["shared-node-browser"@]),
        ("worker"@, c["worker"@]),
        ("serviceworker"@, c["serviceworker"@]),
        ("amd"@, c["amd"@]),
        ("applescript"@, c["applescript"@]),
        ("astro"@, astro_spec()),
        ("atomtest"@, c["atomtest"@]),
        ("commonjs"@, c["commonjs"@]),
        ("embertest"@, c["embertest"@]),
        ("greasemonkey"@, c["greasemonkey"@]),
        ("jasmine"@, c["jasmine"@]),
        ("jest"@, c["jest"@]),
        ("jquery"@, c["jquery"@]),
        ("meteor"@, c["meteor"@]),
        ("mocha"@, c["mocha"@]),
        ("mongo"@, c["mongo"@]),
        ("nashorn"@, c["nashorn"@]),
        ("protractor"@, c["protractor"@]),
        ("prototypejs"@, c["prototypejs"@]),
        ("phantomjs"@, c["phantomjs"@]),
        ("shelljs"@, c["shelljs"@]),
        ("svelte"@, svelte_spec()),
        ("webextensions"@, c["webextensions"@]),
        ("qunit"@, c["qunit"@]),
        ("vitest"@, c["vitest"@]),
        ("vue"@, vue_spec()),
    ]
}

/// The registry a composed `Context` must realize: one environment per
/// registry entry, same name, sorted records denoting the entry's table.
pub open spec fn registry_matches(ctx: Context, c: Map<Seq<char>, Map<Seq<char>, bool>>) -> bool {
    &&& ctx.envs_seq().len() == registry_spec(c).len()
    &&& forall|i: int|
        0 <= i < registry_spec(c).len() ==> {
            &&& (#[trigger] ctx.envs_seq()[i]).name@ == registry_spec(c)[i].0
            &&& ctx.envs_seq()[i].wf()
            &&& ctx.envs_seq()[i].table() == registry_spec(c)[i].1
        }
}

/// The identifiers of `current` that `prev` does not know, flags taken from
/// `current`: the delta one edition introduces over another.  The result
/// never holds a name present in `prev`.
pub fn get_diff(current: &FxHashMap<String, bool>, prev: &FxHashMap<String, bool>) -> (r:
    FxHashMap<String, bool>)
    ensures
        table_contents(r) == diff_spec(table_contents(*current), table_contents(*prev)),
        forall|k: Seq<char>|
            #[trigger] table_contents(r).dom().contains(k) ==> !table_contents(
                *prev,
            ).dom().contains(k) && table_contents(*current).dom().contains(k) && table_contents(r)[k]
                == table_contents(*current)[k],
{
    let entries = table_entries(current);
    let mut retv = table_new();
    let mut i: usize = 0;
    while i < entries.len()
        invariant
            i <= entries@.len(),
            forall|j: int|
                0 <= j < entries@.len() ==> table_contents(*current).contains_pair(
                    (#[trigger] entries@[j]).0@,
                    entries@[j].1,
                ),
            forall|t: int|
                0 <= t < i && !table_contents(*prev).dom().contains((#[trigger] entries@[t]).0@)
                    ==> table_contents(retv).contains_pair(entries@[t].0@, entries@[t].1),
            forall|k: Seq<char>|
                #[trigger] table_contents(retv).dom().contains(k) ==> !table_contents(
                    *prev,
                ).dom().contains(k) && table_contents(*current).contains_pair(
                    k,
                    table_contents(retv)[k],
                ) && exists|t: int| 0 <= t < i && (#[trigger] entries@[t]).0@ == k,
        decreases entries@.len() - i,
    {
        if !table_contains_key(prev, entries[i].0.as_str()) {
            let k = entries[i].0.clone();
            let v = entries[i].1;
            table_insert(&mut retv, k, v);
        }
        i = i + 1;
    }
    proof {
        assert(table_contents(retv) =~= diff_spec(
            table_contents(*current),
            table_contents(*prev),
        )) by {
            assert forall|k: Seq<char>|
                diff_spec(table_contents(*current), table_contents(*prev)).dom().contains(
                    k,
                ) implies #[trigger] table_contents(retv).dom().contains(k) by {
                let t = choose|t: int|
                    0 <= t < entries@.len() && (#[trigger] entries@[t]).0@ == k;
                assert(table_contents(retv).contains_pair(entries@[t].0@, entries@[t].1));
            }
        }
    }
    retv
}

/// `dst` with every entry of `src` written over it: the later layer wins.
fn table_extend(dst: FxHashMap<String, bool>, src: &FxHashMap<String, bool>) -> (r: FxHashMap<
    String,
    bool,
>)
    ensures
        table_contents(r) == table_contents(dst).union_prefer_right(table_contents(*src)),
{
    let ghost base = table_contents(dst);
    let ghost srcm = table_contents(*src);
    let entries = table_entries(src);
    let mut out = dst;
    let mut i: usize = 0;
    while i < entries.len()
        invariant
            i <= entries@.len(),
            forall|j: int|
                0 <= j < entries@.len() ==> srcm.contains_pair(
                    (#[trigger] entries@[j]).0@,
                    entries@[j].1,
                ),
            forall|t: int|
                0 <= t < i ==> table_contents(out).contains_pair(
                    (#[trigger] entries@[t]).0@,
                    entries@[t].1,
                ),
            forall|k: Seq<char>|
                #[trigger] table_contents(out).dom().contains(k) ==> base.dom().contains(k) || (
                exists|t: int| 0 <= t < i && (#[trigger] entries@[t]).0@ == k),
            forall|k: Seq<char>|
                #[trigger] base.dom().contains(k) ==> table_contents(out).dom().contains(k),
            forall|k: Seq<char>|
                base.dom().contains(k) && !(exists|t: int|
                    0 <= t < i && (#[trigger] entries@[t]).0@ == k) ==> #[trigger] table_contents(
                    out,
                )[k] == base[k],
        decreases entries@.len() - i,
    {
        let k = entries[i].0.clone();
        let v = entries[i].1;
        table_insert(&mut out, k, v);
        i = i + 1;
    }
    proof {
        assert(table_contents(out) =~= base.union_prefer_right(srcm)) by {
            assert forall|k: Seq<char>| #[trigger] srcm.dom().contains(k) implies table_contents(
                out,
            ).dom().contains(k) && table_contents(out)[k] == srcm[k] by {
                let t = choose|t: int|
                    0 <= t < entries@.len() && (#[trigger] entries@[t]).0@ == k;
                assert(table_contents(out).contains_pair(entries@[t].0@, entries@[t].1));
            }
        }
    }
    out
}

/// A new table holding `base` with `overlay` layered over it.
pub fn layered(base: &FxHashMap<String, bool>, overlay: &FxHashMap<String, bool>) -> (r: FxHashMap<
    String,
    bool,
>)
    ensures
        table_contents(r) == table_contents(*base).union_prefer_right(table_contents(*overlay)),
{
    let fresh = table_new();
    let copied = table_extend(fresh, base);
    proof {
        assert(empty_table().union_prefer_right(table_contents(*base)) =~= table_contents(*base));
    }
    table_extend(copied, overlay)
}

/// Builds the curated 2017 delta table.
pub fn new_globals_2017() -> (t: FxHashMap<String, bool>)
    ensures
        table_contents(t) == globals_2017_spec(),
{
    let mut t = table_new();
    table_insert(&mut t, "Atomics".to_owned(), false);
    table_insert(&mut t, "SharedArrayBuffer".to_owned(), false);
    proof {
        assert(table_contents(t) =~= globals_2017_spec());
    }
    t
}

/// Builds the curated 2020 delta table.
pub fn new_globals_2020() -> (t: FxHashMap<String, bool>)
    ensures
        table_contents(t) == globals_2020_spec(),
{
    let mut t = table_new();
    table_insert(&mut t, "BigInt".to_owned(), false);
    table_insert(&mut t, "BigInt64Array".to_owned(), false);
    table_insert(&mut t, "BigUint64Array".to_owned(), false);
    table_insert(&mut t, "globalThis".to_owned(), false);
    proof {
        assert(table_contents(t) =~= globals_2020_spec());
    }
    t
}

/// Builds the curated 2021 delta table.
pub fn new_globals_2021() -> (t: FxHashMap<String, bool>)
    ensures
        table_contents(t) == globals_2021_spec(),
{
    let mut t = table_new();
    table_insert(&mut t, "AggregateError".to_owned(), false);
    table_insert(&mut t, "FinalizationRegistry".to_owned(), false);
    table_insert(&mut t, "WeakRef".to_owned(), false);
    proof {
        assert(table_contents(t) =~= globals_2021_spec());
    }
    t
}

/// Builds the curated 2025 delta table.
pub fn new_globals_2025() -> (t: FxHashMap<String, bool>)
    ensures
        table_contents(t) == globals_2025_spec(),
{
    let mut t = table_new();
    table_insert(&mut t, "Float16Array".to_owned(), false);
    table_insert(&mut t, "Iterator".to_owned(), false);
    proof {
        assert(table_contents(t) =~= globals_2025_spec());
    }
    t
}

/// Builds the curated audio-worklet overlay table.
pub fn audio_worklet_globals() -> (t: FxHashMap<String, bool>)
    ensures
        table_contents(t) == audio_worklet_spec(),
{
    let mut t = table_new();
    table_insert(&mut t, "AudioWorkletGlobalScope".to_owned(), false);
    table_insert(&mut t, "AudioWorkletProcessor".to_owned(), false);
    table_insert(&mut t, "WorkletGlobalScope".to_owned(), false);
    table_insert(&mut t, "currentFrame".to_owned(), false);
    table_insert(&mut t, "currentTime".to_owned(), false);
    table_insert(&mut t, "registerProcessor".to_owned(), false);
    table_insert(&mut t, "sampleRate".to_owned(), false);
    proof {
        assert(table_contents(t) =~= audio_worklet_spec());
    }
    t
}

/// Builds the curated Astro overlay table.
pub fn astro_globals() -> (t: FxHashMap<String, bool>)
    ensures
        table_contents(t) == astro_spec(),
{
    let mut t = table_new();
    table_insert(&mut t, "Astro".to_owned(), false);
    table_insert(&mut t, "Fragment".to_owned(), false);
    proof {
        assert(table_contents(t) =~= astro_spec());
    }
    t
}

/// Builds the curated Svelte overlay table.
pub fn svelte_globals() -> (t: FxHashMap<String, bool>)
    ensures
        table_contents(t) == svelte_spec(),
{
    let mut t = table_new();
    table_insert(&mut t, "$bindable".to_owned(), false);
    table_insert(&mut t, "$derived".to_owned(), false);
    table_insert(&mut t, "$effect".to_owned(), false);
    table_insert(&mut t, "$host".to_owned(), false);
    table_insert(&mut t, "$inspect".to_owned(), false);
    table_insert(&mut t, "$props".to_owned(), false);
    table_insert(&mut t, "$state".to_owned(), false);
    proof {
        assert(table_contents(t) =~= svelte_spec());
    }
    t
}

/// Builds the curated Vue overlay table.
pub fn vue_globals() -> (t: FxHashMap<String, bool>)
    ensures
        table_contents(t) == vue_spec(),
{
    let mut t = table_new();
    table_insert(&mut t, "defineEmits".to_owned(), false);
    table_insert(&mut t, "defineExpose".to_owned(), false);
    table_insert(&mut t, "defineModel".to_owned(), false);
    table_insert(&mut t, "defineOptions".to_owned(), false);
    table_insert(&mut t, "defineProps".to_owned(), false);
    table_insert(&mut t, "defineSlots".to_owned(), false);
    table_insert(&mut t, "withDefaults".to_owned(), false);
    proof {
        assert(table_contents(t) =~= vue_spec());
    }
    t
}

/// The records of a table, sorted strictly by name: the emitted form.
pub fn to_env_vars(env_var_map: &FxHashMap<String, bool>) -> (r: Vec<EnvVar>)
    ensures
        strictly_sorted_names(var_pairs(r@)),
        pairs_to_map(var_pairs(r@)) == table_contents(*env_var_map),
{
    let entries = table_entries(env_var_map);
    let mut vars: Vec<EnvVar> = Vec::new();
    let mut i: usize = 0;
    while i < entries.len()
        invariant
            i <= entries@.len(),
            vars@.len() == i,
            forall|t: int| 0 <= t < i ==> (#[trigger] vars@[t])@ == entry_pairs(entries@)[t],
        decreases entries@.len() - i,
    {
        let name = entries[i].0.clone();
        let writeable = entries[i].1;
        vars.push(EnvVar { name, writeable });
        i = i + 1;
    }
    let ghost gvars = vars@;
    proof {
        assert(var_pairs(gvars) =~= entry_pairs(entries@));
    }
    let sorted = sort_env_vars(vars);
    proof {
        let sp = var_pairs(sorted@);
        let m = table_contents(*env_var_map);
        lemma_sorted_implies_distinct(sp);
        assert forall|t: int| 0 <= t < sp.len() implies m.dom().contains((#[trigger] sp[t]).0)
            && m[sp[t].0] == sp[t].1 by {
            assert(sp.contains(sp[t]));
            assert(var_pairs(gvars).contains(sp[t]));
            let u = choose|u: int| 0 <= u < var_pairs(gvars).len() && var_pairs(gvars)[u] == sp[t];
            assert(entry_pairs(entries@)[u] == sp[t]);
            assert(m.contains_pair((#[trigger] entries@[u]).0@, entries@[u].1));
        }
        assert forall|k: Seq<char>| #[trigger] m.dom().contains(k) implies exists|t: int|
            0 <= t < sp.len() && (#[trigger] sp[t]).0 == k by {
            let j = choose|j: int| 0 <= j < entries@.len() && (#[trigger] entries@[j]).0@ == k;
            assert(entry_pairs(entries@)[j] == (entries@[j].0@, entries@[j].1));
            assert(var_pairs(gvars)[j] == entry_pairs(entries@)[j]);
            assert(var_pairs(gvars).contains(entry_pairs(entries@)[j]));
            assert(sp.contains(entry_pairs(entries@)[j]));
            let t = choose|t: int| 0 <= t < sp.len() && sp[t] == entry_pairs(entries@)[j];
            assert(sp[t].0 == k);
        }
        lemma_pairs_match_map(sp, m);
    }
    sorted
}

/// An emitted environment from a name and a working table.
fn env_from_table(name: &str, t: &FxHashMap<String, bool>) -> (e: Env)
    ensures
        e.name@ == name@,
        e.wf(),
        e.table() == table_contents(*t),
{
    Env { name: name.to_owned(), vars: to_env_vars(t) }
}

/// Composes the full registry from a raw catalogue.  Succeeds exactly when
/// the catalogue supplies every required environment; otherwise it fails
/// fatally with the first missing name, in the demanded order.
#[verifier::rlimit(100)]
pub fn compose_registry(catalogue: &FxHashMap<String, FxHashMap<String, bool>>) -> (r: Result<
    Context,
    String,
>)
    ensures
        match r {
            Ok(ctx) => {
                &&& forall|i: int|
                    0 <= i < required_names().len() ==> catalogue_contents(
                        *catalogue,
                    ).dom().contains(#[trigger] required_names()[i])
                &&& ctx.wf()
                &&& registry_matches(ctx, catalogue_contents(*catalogue))
            },
            Err(name) => exists|i: int|
                {
                    &&& 0 <= i < required_names().len()
                    &&& name@ == #[trigger] required_names()[i]
                    &&& !catalogue_contents(*catalogue).dom().contains(required_names()[i])
                    &&& forall|j: int|
                        0 <= j < i ==> catalogue_contents(*catalogue).dom().contains(
                            #[trigger] required_names()[j],
                        )
                },
        },
{
    let builtin_t = match catalogue_get(catalogue, "builtin") {
        Some(t) => t,
        None => {
            proof {
                assert(required_names()[0] == "builtin"@);
                assert forall|j: int| 0 <= j < 0 implies catalogue_contents(
                    *catalogue,
                ).dom().contains(#[trigger] required_names()[j]) by {}
            }
            return Err("builtin".to_owned());
        },
    };
    let es5_t = match catalogue_get(catalogue, "es5") {
        Some(t) => t,
        None => {
            proof {
                assert(required_names()[1] == "es5"@);
                assert forall|j: int| 0 <= j < 1 implies catalogue_contents(
                    *catalogue,
                ).dom().contains(#[trigger] required_names()[j]) by {}
            }
            return Err("es5".to_owned());
        },
    };
    let es2015_t = match catalogue_get(catalogue, "es2015") {
        Some(t) => t,
        None => {
            proof {
                assert(required_names()[2] == "es2015"@);
                assert forall|j: int| 0 <= j < 2 implies catalogue_contents(
                    *catalogue,
                ).dom().contains(#[trigger] required_names()[j]) by {}
            }
            return Err("es2015".to_owned());
        },
    };
    let browser_t = match catalogue_get(catalogue, "browser") {
        Some(t) => t,
        None => {
            proof {
                assert(required_names()[3] == "browser"@);
                assert forall|j: int| 0 <= j < 3 implies catalogue_contents(
                    *catalogue,
                ).dom().contains(#[trigger] required_names()[j]) by {}
            }
            return Err("browser".to_owned());
        },
    };
    let node_t = match catalogue_get(catalogue, "node") {
        Some(t) => t,
        None => {
            proof {
                assert(required_names()[4] == "node"@);
                assert forall|j: int| 0 <= j < 4 implies catalogue_contents(
                    *catalogue,
                ).dom().contains(#[trigger] required_names()[j]) by {}
            }
            return Err("node".to_owned());
        },
    };
    let shared_node_browser_t = match catalogue_get(catalogue, "shared-node-browser") {
        Some(t) => t,
        None => {
            proof {
                assert(required_names()[5] == "shared-node-browser"@);
                assert forall|j: int| 0 <= j < 5 implies catalogue_contents(
                    *catalogue,
                ).dom().contains(#[trigger] required_names()[j]) by {}
            }
            return Err("shared-node-browser".to_owned());
        },
    };
    let worker_t = match catalogue_get(catalogue, "worker") {
        Some(t) => t,
        None => {
            proof {
                assert(required_names()[6] == "worker"@);
                assert forall|j: int| 0 <= j < 6 implies catalogue_contents(
                    *catalogue,
                ).dom().contains(#[trigger] required_names()[j]) by {}
            }
            return Err("worker".to_owned());
        },
    };
    let serviceworker_t = match catalogue_get(catalogue, "serviceworker") {
        Some(t) => t,
        None => {
            proof {
                assert(required_names()[7] == "serviceworker"@);
                assert forall|j: int| 0 <= j < 7 implies catalogue_contents(
                    *catalogue,
                ).dom().contains(#[trigger] required_names()[j]) by {}
            }
            return Err("serviceworker".to_owned());
        },
    };
    let amd_t = match catalogue_get(catalogue, "amd") {
        Some(t) => t,
        None => {
            proof {
                assert(required_names()[8] == "amd"@);
                assert forall|j: int| 0 <= j < 8 implies catalogue_contents(
                    *catalogue,
                ).dom().contains(#[trigger] required_names()[j]) by {}
            }
            return Err("amd".to_owned());
        },
    };
    let applescript_t = match catalogue_get(catalogue, "applescript") {
        Some(t) => t,
        None => {
            proof {
                assert(required_names()[9] == "applescript"@);
                assert forall|j: int| 0 <= j < 9 implies catalogue_contents(
                    *catalogue,
                ).dom().contains(#[trigger] required_names()[j]) by {}
            }
            return Err("applescript".to_owned());
        },
    };
    let atomtest_t = match catalogue_get(catalogue, "atomtest") {
        Some(t) => t,
        None => {
            proof {
                assert(required_names()[10] == "atomtest"@);
                assert forall|j: int| 0 <= j < 10 implies catalogue_contents(
                    *catalogue,
                ).dom().contains(#[trigger] required_names()[j]) by {}
            }
            return Err("atomtest".to_owned());
        },
    };
    let commonjs_t = match catalogue_get(catalogue, "commonjs") {
        Some(t) => t,
        None => {
            proof {
                assert(required_names()[11] == "commonjs"@);
                assert forall|j: int| 0 <= j < 11 implies catalogue_contents(
                    *catalogue,
                ).dom().contains(#[trigger] required_names()[j]) by {}
            }
            return Err("commonjs".to_owned());
        },
    };
    let embertest_t = match catalogue_get(catalogue, "embertest") {
        Some(t) => t,
        None => {
            proof {
                assert(required_names()[12] == "embertest"@);
                assert forall|j: int| 0 <= j < 12 implies catalogue_contents(
                    *catalogue,
                ).dom().contains(#[trigger] required_names()[j]) by {}
            }
            return Err("embertest".to_owned());
        },
    };
    let greasemonkey_t = match catalogue_get(catalogue, "greasemonkey") {
        Some(t) => t,
        None => {
            proof {
                assert(required_names()[13] == "greasemonkey"@);
                assert forall|j: int| 0 <= j < 13 implies catalogue_contents(
                    *catalogue,
                ).dom().contains(#[trigger] required_names()[j]) by {}
            }
            return Err("greasemonkey".to_owned());
        },
    };
    let jasmine_t = match catalogue_get(catalogue, "jasmine") {
        Some(t) => t,
        None => {
            proof {
                assert(required_names()[14] == "jasmine"@);
                assert forall|j: int| 0 <= j < 14 implies catalogue_contents(
                    *catalogue,
                ).dom().contains(#[trigger] required_names()[j]) by {}
            }
            return Err("jasmine".to_owned());
        },
    };
    let jest_t = match catalogue_get(catalogue, "jest") {
        Some(t) => t,
        None => {
            proof {
                assert(required_names()[15] == "jest"@);
                assert forall|j: int| 0 <= j < 15 implies catalogue_contents(
                    *catalogue,
                ).dom().contains(#[trigger] required_names()[j]) by {}
            }
            return Err("jest".to_owned());
        },
    };
    let jquery_t = match catalogue_get(catalogue, "jquery") {
        Some(t) => t,
        None => {
            proof {
                assert(required_names()[16] == "jquery"@);
                assert forall|j: int| 0 <= j < 16 implies catalogue_contents(
                    *catalogue,
                ).dom().contains(#[trigger] required_names()[j]) by {}
            }
            return Err("jquery".to_owned());
        },
    };
    let meteor_t = match catalogue_get(catalogue, "meteor") {
        Some(t) => t,
        None => {
            proof {
                assert(required_names()[17] == "meteor"@);
                assert forall|j: int| 0 <= j < 17 implies catalogue_contents(
                    *catalogue,
                ).dom().contains(#[trigger] required_names()[j]) by {}
            }
            return Err("meteor".to_owned());
        },
    };
    let mocha_t = match catalogue_get(catalogue, "mocha") {
        Some(t) => t,
        None => {
            proof {
                assert(required_names()[18] == "mocha"@);
                assert forall|j: int| 0 <= j < 18 implies catalogue_contents(
                    *catalogue,
                ).dom().contains(#[trigger] required_names()[j]) by {}
            }
            return Err("mocha".to_owned());
        },
    };
    let mongo_t = match catalogue_get(catalogue, "mongo") {
        Some(t) => t,
        None => {
            proof {
                assert(required_names()[19] == "mongo"@);
                assert forall|j: int| 0 <= j < 19 implies catalogue_contents(
                    *catalogue,
                ).dom().contains(#[trigger] required_names()[j]) by {}
            }
            return Err("mongo".to_owned());
        },
    };
    let nashorn_t = match catalogue_get(catalogue, "nashorn") {
        Some(t) => t,
        None => {
            proof {
                assert(required_names()[20] == "nashorn"@);
                assert forall|j: int| 0 <= j < 20 implies catalogue_contents(
                    *catalogue,
                ).dom().contains(#[trigger] required_names()[j]) by {}
            }
            return Err("nashorn".to_owned());
        },
    };
    let protractor_t = match catalogue_get(catalogue, "protractor") {
        Some(t) => t,
        None => {
            proof {
                assert(required_names()[21] == "protractor"@);
                assert forall|j: int| 0 <= j < 21 implies catalogue_contents(
                    *catalogue,
                ).dom().contains(#[trigger] required_names()[j]) by {}
            }
            return Err("protractor".to_owned());
        },
    };
    let prototypejs_t = match catalogue_get(catalogue, "prototypejs") {
        Some(t) => t,
        None => {
            proof {
                assert(required_names()[22] == "prototypejs"@);
                assert forall|j: int| 0 <= j < 22 implies catalogue_contents(
                    *catalogue,
                ).dom().contains(#[trigger] required_names()[j]) by {}
            }
            return Err("prototypejs".to_owned());
        },
    };
    let phantomjs_t = match catalogue_get(catalogue, "phantomjs") {
        Some(t) => t,
        None => {
            proof {
                assert(required_names()[23] == "phantomjs"@);
                assert forall|j: int| 0 <= j < 23 implies catalogue_contents(
                    *catalogue,
                ).dom().contains(#[trigger] required_names()[j]) by {}
            }
            return Err("phantomjs".to_owned());
        },
    };
    let shelljs_t = match catalogue_get(catalogue, "shelljs") {
        Some(t) => t,
        None => {
            proof {
                assert(required_names()[24] == "shelljs"@);
                assert forall|j: int| 0 <= j < 24 implies catalogue_contents(
                    *catalogue,
                ).dom().contains(#[trigger] required_names()[j]) by {}
            }
            return Err("shelljs".to_owned());
        },
    };
    let webextensions_t = match catalogue_get(catalogue, "webextensions") {
        Some(t) => t,
        None => {
            proof {
                assert(required_names()[25] == "webextensions"@);
                assert forall|j: int| 0 <= j < 25 implies catalogue_contents(
                    *catalogue,
                ).dom().contains(#[trigger] required_names()[j]) by {}
            }
            return Err("webextensions".to_owned());
        },
    };
    let qunit_t = match catalogue_get(catalogue, "qunit") {
        Some(t) => t,
        None => {
            proof {
                assert(required_names()[26] == "qunit"@);
                assert forall|j: int| 0 <= j < 26 implies catalogue_contents(
                    *catalogue,
                ).dom().contains(#[trigger] required_names()[j]) by {}
            }
            return Err("qunit".to_owned());
        },
    };
    let vitest_t = match catalogue_get(catalogue, "vitest") {
        Some(t) => t,
        None => {
            proof {
                assert(required_names()[27] == "vitest"@);
                assert forall|j: int| 0 <= j < 27 implies catalogue_contents(
                    *catalogue,
                ).dom().contains(#[trigger] required_names()[j]) by {}
            }
            return Err("vitest".to_owned());
        },
    };
    let delta_2015 = get_diff(es2015_t, es5_t);
    let d2017 = new_globals_2017();
    let cum_2017 = layered(&delta_2015, &d2017);
    let d2020 = new_globals_2020();
    let cum_2020 = layered(&cum_2017, &d2020);
    let d2021 = new_globals_2021();
    let cum_2021 = layered(&cum_2020, &d2021);
    let d2025 = new_globals_2025();
    let cum_2025 = layered(&cum_2021, &d2025);
    let audio_worklet_t = audio_worklet_globals();
    let astro_t = astro_globals();
    let svelte_t = svelte_globals();
    let vue_t = vue_globals();
    let mut envs: Vec<Env> = Vec::new();
    envs.push(env_from_table("builtin", builtin_t));
    envs.push(env_from_table("es6", &delta_2015));
    envs.push(env_from_table("es2015", &delta_2015));
    envs.push(env_from_table("es2016", &delta_2015));
    envs.push(env_from_table("es2017", &cum_2017));
    envs.push(env_from_table("es2018", &cum_2017));
    envs.push(env_from_table("es2019", &cum_2017));
    envs.push(env_from_table("es2020", &cum_2020));
    envs.push(env_from_table("es2021", &cum_2021));
    envs.push(env_from_table("es2022", &cum_2021));
    envs.push(env_from_table("es2023", &cum_2021));
    envs.push(env_from_table("es2024", &cum_2021));
    envs.push(env_from_table("es2025", &cum_2025));
    envs.push(env_from_table("es2026", &cum_2025));
    envs.push(env_from_table("browser", browser_t));
    envs.push(env_from_table("audioWorklet", &audio_worklet_t));
    envs.push(env_from_table("node", node_t));
    envs.push(env_from_table("shared-node-browser", shared_node_browser_t));
    envs.push(env_from_table("worker", worker_t));
    envs.push(env_from_table("serviceworker", serviceworker_t));
    envs.push(env_from_table("amd", amd_t));
    envs.push(env_from_table("applescript", applescript_t));
    envs.push(env_from_table("astro", &astro_t));
    envs.push(env_from_table("atomtest", atomtest_t));
    envs.push(env_from_table("commonjs", commonjs_t));
    envs.push(env_from_table("embertest", embertest_t));
    envs.push(env_from_table("greasemonkey", greasemonkey_t));
    envs.push(env_from_table("jasmine", jasmine_t));
    envs.push(env_from_table("jest", jest_t));
    envs.push(env_from_table("jquery", jquery_t));
    envs.push(env_from_table("meteor", meteor_t));
    envs.push(env_from_table("mocha", mocha_t));
    envs.push(env_from_table("mongo", mongo_t));
    envs.push(env_from_table("nashorn", nashorn_t));
    envs.push(env_from_table("protractor", protractor_t));
    envs.push(env_from_table("prototypejs", prototypejs_t));
    envs.push(env_from_table("phantomjs", phantomjs_t));
    envs.push(env_from_table("shelljs", shelljs_t));
    envs.push(env_from_table("svelte", &svelte_t));
    envs.push(env_from_table("webextensions", webextensions_t));
    envs.push(env_from_table("qunit", qunit_t));
    envs.push(env_from_table("vitest", vitest_t));
    envs.push(env_from_table("vue", &vue_t));
    let ctx = Context::new(envs);
    proof {
        let c = catalogue_contents(*catalogue);
        assert(ctx.envs_seq().len() == registry_spec(c).len());
        assert forall|i: int| 0 <= i < registry_spec(c).len() implies {
            &&& (#[trigger] ctx.envs_seq()[i]).name@ == registry_spec(c)[i].0
            &&& ctx.envs_seq()[i].wf()
            &&& ctx.envs_seq()[i].table() == registry_spec(c)[i].1
        } by {
        }
    }
    Ok(ctx)
}

/// Edition aliases compose to identical tables: each alias edition's entry
/// in the registry carries exactly the identifier table of its canonical
/// edition, for every catalogue.
pub proof fn lemma_alias_editions_equal(c: Map<Seq<char>, Map<Seq<char>, bool>>)
    ensures
        registry_spec(c)[1] == ("es6"@, cumulative_es2015(c)),
        registry_spec(c)[3] == ("es2016"@, cumulative_es2015(c)),
        registry_spec(c)[1].1 == registry_spec(c)[2].1,
        registry_spec(c)[3].1 == registry_spec(c)[2].1,
        registry_spec(c)[2].0 == "es2015"@,
        registry_spec(c)[5] == ("es2018"@, cumulative_es2017(c)),
        registry_spec(c)[6] == ("es2019"@, cumulative_es2017(c)),
        registry_spec(c)[5].1 == registry_spec(c)[4].1,
        registry_spec(c)[6].1 == registry_spec(c)[4].1,
        registry_spec(c)[4].0 == "es2017"@,
        registry_spec(c)[9] == ("es2022"@, cumulative_es2021(c)),
        registry_spec(c)[10] == ("es2023"@, cumulative_es2021(c)),
        registry_spec(c)[11] == ("es2024"@, cumulative_es2021(c)),
        registry_spec(c)[9].1 == registry_spec(c)[8].1,
        registry_spec(c)[10].1 == registry_spec(c)[8].1,
        registry_spec(c)[11].1 == registry_spec(c)[8].1,
        registry_spec(c)[8].0 == "es2021"@,
        registry_spec(c)[13] == ("es2026"@, cumulative_es2025(c)),
        registry_spec(c)[13].1 == registry_spec(c)[12].1,
        registry_spec(c)[12].0 == "es2025"@,
{
}

/// Cumulative editions never shrink: an identifier present in an earlier
/// edition's cumulative table is present in every chronologically later one.
pub proof fn lemma_editions_monotonic(
    c: Map<Seq<char>, Map<Seq<char>, bool>>,
    i: int,
    j: int,
    id: Seq<char>,
)
    requires
        0 <= i <= j < cumulative_chain(c).len(),
        cumulative_chain(c)[i].dom().contains(id),
    ensures
        cumulative_chain(c)[j].dom().contains(id),
    decreases j - i,
{
    if i < j {
        lemma_editions_monotonic(c, i, j - 1, id);
        if j == 1 {
            assert(cumulative_es2017(c).dom().contains(id));
        } else if j == 2 {
            assert(cumulative_es2020(c).dom().contains(id));
        } else if j == 3 {
            assert(cumulative_es2021(c).dom().contains(id));
        } else {
            assert(cumulative_es2025(c).dom().contains(id));
        }
    }
}

/// Generation is reproducible: any two composed registries realizing the
/// same catalogue contents agree environment for environment, record for
/// record, so emitting them again yields an identical artifact.
pub proof fn lemma_generation_deterministic(
    ctx1: Context,
    ctx2: Context,
    c: Map<Seq<char>, Map<Seq<char>, bool>>,
)
    requires
        registry_matches(ctx1, c),
        registry_matches(ctx2, c),
    ensures
        ctx1.envs_seq().len() == ctx2.envs_seq().len(),
        forall|i: int|
            0 <= i < ctx1.envs_seq().len() ==> (#[trigger] ctx1.envs_seq()[i]).name@
                == ctx2.envs_seq()[i].name@ && ctx1.envs_seq()[i].records()
                == ctx2.envs_seq()[i].records(),
{
    assert forall|i: int|
        0 <= i < ctx1.envs_seq().len() implies (#[trigger] ctx1.envs_seq()[i]).name@
        == ctx2.envs_seq()[i].name@ && ctx1.envs_seq()[i].records()
        == ctx2.envs_seq()[i].records() by {
        lemma_sorted_pairs_unique(ctx1.envs_seq()[i].records(), ctx2.envs_seq()[i].records());
    }
}

/// Framework overlays are standalone.  The curated overlay entries equal
/// their curated tables for every catalogue, so no edition global can enter
/// them; every other platform or framework entry passes its catalogue table
/// through unchanged, so no overlay leaks into an edition either.
pub proof fn lemma_framework_overlays_standalone(c: Map<Seq<char>, Map<Seq<char>, bool>>)
    ensures
        registry_spec(c)[15] == ("audioWorklet"@, audio_worklet_spec()),
        registry_spec(c)[22] == ("astro"@, astro_spec()),
        registry_spec(c)[38] == ("svelte"@, svelte_spec()),
        registry_spec(c)[42] == ("vue"@, vue_spec()),
        forall|i: int|
            14 <= i < registry_spec(c).len() && i != 15 && i != 22 && i != 38 && i != 42
                ==> (#[trigger] registry_spec(c)[i]).1 == c[registry_spec(c)[i].0],
{
}

/// In a composed registry, the environment found under the name of registry
/// entry `i` is that entry, provided no earlier entry shares the name.
proof fn lemma_registry_find(
    ctx: Context,
    c: Map<Seq<char>, Map<Seq<char>, bool>>,
    i: int,
    name: Seq<char>,
)
    requires
        registry_matches(ctx, c),
        0 <= i < registry_spec(c).len(),
        registry_spec(c)[i].0 == name,
        forall|j: int| 0 <= j < i ==> (#[trigger] registry_spec(c)[j]).0 != name,
    ensures
        find_env(ctx.envs_seq(), name) == Some(ctx.envs_seq()[i]),
        ctx.envs_seq()[i].table() == registry_spec(c)[i].1,
{
    assert forall|j: int| 0 <= j < i implies (#[trigger] ctx.envs_seq()[j]).name@ != name by {
        assert(ctx.envs_seq()[j].name@ == registry_spec(c)[j].0);
    }
    lemma_find_env_at_index(ctx.envs_seq(), name, i);
}

/// Edition aliases are transparent to consumers: in every composed registry,
/// querying an alias edition returns, for every identifier, exactly what
/// querying its canonical edition returns.
#[verifier::rlimit(100)]
pub proof fn lemma_alias_lookup_equal(ctx: Context, c: Map<Seq<char>, Map<Seq<char>, bool>>)
    requires
        registry_matches(ctx, c),
    ensures
        forall|id: Seq<char>| ctx.spec_lookup("es6"@, id) == ctx.spec_lookup("es2015"@, id),
        forall|id: Seq<char>| ctx.spec_lookup("es2016"@, id) == ctx.spec_lookup("es2015"@, id),
        forall|id: Seq<char>| ctx.spec_lookup("es2018"@, id) == ctx.spec_lookup("es2017"@, id),
        forall|id: Seq<char>| ctx.spec_lookup("es2019"@, id) == ctx.spec_lookup("es2017"@, id),
        forall|id: Seq<char>| ctx.spec_lookup("es2022"@, id) == ctx.spec_lookup("es2021"@, id),
        forall|id: Seq<char>| ctx.spec_lookup("es2023"@, id) == ctx.spec_lookup("es2021"@, id),
        forall|id: Seq<char>| ctx.spec_lookup("es2024"@, id) == ctx.spec_lookup("es2021"@, id),
        forall|id: Seq<char>| ctx.spec_lookup("es2026"@, id) == ctx.spec_lookup("es2025"@, id),
{
    reveal_strlit("builtin");
    reveal_strlit("es6");
    reveal_strlit("es2015");
    reveal_strlit("es2016");
    reveal_strlit("es2017");
    reveal_strlit("es2018");
    reveal_strlit("es2019");
    reveal_strlit("es2020");
    reveal_strlit("es2021");
    reveal_strlit("es2022");
    reveal_strlit("es2023");
    reveal_strlit("es2024");
    reveal_strlit("es2025");
    reveal_strlit("es2026");
    assert("builtin"@.len() == 7);
    assert("es6"@.len() == 3);
    assert("es2015"@.len() == 6);
    assert("es2016"@.len() == 6);
    assert("es2017"@.len() == 6);
    assert("es2018"@.len() == 6);
    assert("es2019"@.len() == 6);
    assert("es2020"@.len() == 6);
    assert("es2021"@.len() == 6);
    assert("es2022"@.len() == 6);
    assert("es2023"@.len() == 6);
    assert("es2024"@.len() == 6);
    assert("es2025"@.len() == 6);
    assert("es2026"@.len() == 6);
    assert("es2015"@[0] == 'e');
    assert("es2015"@[1] == 's');
    assert("es2015"@[2] == '2');
    assert("es2015"@[3] == '0');
    assert("es2015"@[4] == '1');
    assert("es2015"@[5] == '5');
    assert("es2016"@[0] == 'e');
    assert("es2016"@[1] == 's');
    assert("es2016"@[2] == '2');
    assert("es2016"@[3] == '0');
    assert("es2016"@[4] == '1');
    assert("es2016"@[5] == '6');
    assert("es2017"@[0] == 'e');
    assert("es2017"@[1] == 's');
    assert("es2017"@[2] == '2');
    assert("es2017"@[3] == '0');
    assert("es2017"@[4] == '1');
    assert("es2017"@[5] == '7');
    assert("es2018"@[0] == 'e');
    assert("es2018"@[1] == 's');
    assert("es2018"@[2] == '2');
    assert("es2018"@[3] == '0');
    assert("es2018"@[4] == '1');
    assert("es2018"@[5] == '8');
    assert("es2019"@[0] == 'e');
    assert("es2019"@[1] == 's');
    assert("es2019"@[2] == '2');
    assert("es2019"@[3] == '0');
    assert("es2019"@[4] == '1');
    assert("es2019"@[5] == '9');
    assert("es2020"@[0] == 'e');
    assert("es2020"@[1] == 's');
    assert("es2020"@[2] == '2');
    assert("es2020"@[3] == '0');
    assert("es2020"@[4] == '2');
    assert("es2020"@[5] == '0');
    assert("es2021"@[0] == 'e');
    assert("es2021"@[1] == 's');
    assert("es2021"@[2] == '2');
    assert("es2021"@[3] == '0');
    assert("es2021"@[4] == '2');
    assert("es2021"@[5] == '1');
    assert("es2022"@[0] == 'e');
    assert("es2022"@[1] == 's');
    assert("es2022"@[2] == '2');
    assert("es2022"@[3] == '0');
    assert("es2022"@[4] == '2');
    assert("es2022"@[5] == '2');
    assert("es2023"@[0] == 'e');
    assert("es2023"@[1] == 's');
    assert("es2023"@[2] == '2');
    assert("es2023"@[3] == '0');
    assert("es2023"@[4] == '2');
    assert("es2023"@[5] == '3');
    assert("es2024"@[0] == 'e');
    assert("es2024"@[1] == 's');
    assert("es2024"@[2] == '2');
    assert("es2024"@[3] == '0');
    assert("es2024"@[4] == '2');
    assert("es2024"@[5] == '4');
    assert("es2025"@[0] == 'e');
    assert("es2025"@[1] == 's');
    assert("es2025"@[2] == '2');
    assert("es2025"@[3] == '0');
    assert("es2025"@[4] == '2');
    assert("es2025"@[5] == '5');
    assert("es2026"@[0] == 'e');
    assert("es2026"@[1] == 's');
    assert("es2026"@[2] == '2');
    assert("es2026"@[3] == '0');
    assert("es2026"@[4] == '2');
    assert("es2026"@[5] == '6');
    assert("builtin"@ != "es6"@);
    assert forall|j: int| 0 <= j < 1 implies (#[trigger] registry_spec(c)[j]).0 != "es6"@ by {
    }
    lemma_registry_find(ctx, c, 1, "es6"@);
    assert("builtin"@ != "es2015"@);
    assert("es6"@ != "es2015"@);
    assert forall|j: int| 0 <= j < 2 implies (#[trigger] registry_spec(c)[j]).0 != "es2015"@ by {
    }
    lemma_registry_find(ctx, c, 2, "es2015"@);
    assert("builtin"@ != "es2016"@);
    assert("es6"@ != "es2016"@);
    assert("es2015"@ != "es2016"@);
    assert forall|j: int| 0 <= j < 3 implies (#[trigger] registry_spec(c)[j]).0 != "es2016"@ by {
    }
    lemma_registry_find(ctx, c, 3, "es2016"@);
    assert("builtin"@ != "es2017"@);
    assert("es6"@ != "es2017"@);
    assert("es2015"@ != "es2017"@);
    assert("es2016"@ != "es2017"@);
    assert forall|j: int| 0 <= j < 4 implies (#[trigger] registry_spec(c)[j]).0 != "es2017"@ by {
    }
    lemma_registry_find(ctx, c, 4, "es2017"@);
    assert("builtin"@ != "es2018"@);
    assert("es6"@ != "es2018"@);
    assert("es2015"@ != "es2018"@);
    assert("es2016"@ != "es2018"@);
    assert("es2017"@ != "es2018"@);
    assert forall|j: int| 0 <= j < 5 implies (#[trigger] registry_spec(c)[j]).0 != "es2018"@ by {
    }
    lemma_registry_find(ctx, c, 5, "es2018"@);
    assert("builtin"@ != "es2019"@);
    assert("es6"@ != "es2019"@);
    assert("es2015"@ != "es2019"@);
    assert("es2016"@ != "es2019"@);
    assert("es2017"@ != "es2019"@);
    assert("es2018"@ != "es2019"@);
    assert forall|j: int| 0 <= j < 6 implies (#[trigger] registry_spec(c)[j]).0 != "es2019"@ by {
    }
    lemma_registry_find(ctx, c, 6, "es2019"@);
    assert("builtin"@ != "es2021"@);
    assert("es6"@ != "es2021"@);
    assert("es2015"@ != "es2021"@);
    assert("es2016"@ != "es2021"@);
    assert("es2017"@ != "es2021"@);
    assert("es2018"@ != "es2021"@);
    assert("es2019"@ != "es2021"@);
    assert("es2020"@ != "es2021"@);
    assert forall|j: int| 0 <= j < 8 implies (#[trigger] registry_spec(c)[j]).0 != "es2021"@ by {
    }
    lemma_registry_find(ctx, c, 8, "es2021"@);
    assert("builtin"@ != "es2022"@);
    assert("es6"@ != "es2022"@);
    assert("es2015"@ != "es2022"@);
    assert("es2016"@ != "es2022"@);
    assert("es2017"@ != "es2022"@);
    assert("es2018"@ != "es2022"@);
    assert("es2019"@ != "es2022"@);
    assert("es2020"@ != "es2022"@);
    assert("es2021"@ != "es2022"@);
    assert forall|j: int| 0 <= j < 9 implies (#[trigger] registry_spec(c)[j]).0 != "es2022"@ by {
    }
    lemma_registry_find(ctx, c, 9, "es2022"@);
    assert("builtin"@ != "es2023"@);
    assert("es6"@ != "es2023"@);
    assert("es2015"@ != "es2023"@);
    assert("es2016"@ != "es2023"@);
    assert("es2017"@ != "es2023"@);
    assert("es2018"@ != "es2023"@);
    assert("es2019"@ != "es2023"@);
    assert("es2020"@ != "es2023"@);
    assert("es2021"@ != "es2023"@);
    assert("es2022"@ != "es2023"@);
    assert forall|j: int| 0 <= j < 10 implies (#[trigger] registry_spec(c)[j]).0 != "es2023"@ by {
    }
    lemma_registry_find(ctx, c, 10, "es2023"@);
    assert("builtin"@ != "es2024"@);
    assert("es6"@ != "es2024"@);
    assert("es2015"@ != "es2024"@);
    assert("es2016"@ != "es2024"@);
    assert("es2017"@ != "es2024"@);
    assert("es2018"@ != "es2024"@);
    assert("es2019"@ != "es2024"@);
    assert("es2020"@ != "es2024"@);
    assert("es2021"@ != "es2024"@);
    assert("es2022"@ != "es2024"@);
    assert("es2023"@ != "es2024"@);
    assert forall|j: int| 0 <= j < 11 implies (#[trigger] registry_spec(c)[j]).0 != "es2024"@ by {
    }
    lemma_registry_find(ctx, c, 11, "es2024"@);
    assert("builtin"@ != "es2025"@);
    assert("es6"@ != "es2025"@);
    assert("es2015"@ != "es2025"@);
    assert("es2016"@ != "es2025"@);
    assert("es2017"@ != "es2025"@);
    assert("es2018"@ != "es2025"@);
    assert("es2019"@ != "es2025"@);
    assert("es2020"@ != "es2025"@);
    assert("es2021"@ != "es2025"@);
    assert("es2022"@ != "es2025"@);
    assert("es2023"@ != "es2025"@);
    assert("es2024"@ != "es2025"@);
    assert forall|j: int| 0 <= j < 12 implies (#[trigger] registry_spec(c)[j]).0 != "es2025"@ by {
    }
    lemma_registry_find(ctx, c, 12, "es2025"@);
    assert("builtin"@ != "es2026"@);
    assert("es6"@ != "es2026"@);
    assert("es2015"@ != "es2026"@);
    assert("es2016"@ != "es2026"@);
    assert("es2017"@ != "es2026"@);
    assert("es2018"@ != "es2026"@);
    assert("es2019"@ != "es2026"@);
    assert("es2020"@ != "es2026"@);
    assert("es2021"@ != "es2026"@);
    assert("es2022"@ != "es2026"@);
    assert("es2023"@ != "es2026"@);
    assert("es2024"@ != "es2026"@);
    assert("es2025"@ != "es2026"@);
    assert forall|j: int| 0 <= j < 13 implies (#[trigger] registry_spec(c)[j]).0 != "es2026"@ by {
    }
    lemma_registry_find(ctx, c, 13, "es2026"@);
}

} // verus!
