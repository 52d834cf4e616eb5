//! File locations: joining path components and the standard places of the
//! kubeconfig, the settings, the cluster cache and the plugins.
use vstd::prelude::*;

use crate::text::{chars_of, owned, string_from_chars};

verus! {

/// `Path::join` with a relative component: a separator is added unless the
/// base is empty or already ends with one.
pub open spec fn join_path(base: Seq<char>, part: Seq<char>) -> Seq<char> {
    if base.len() == 0 {
        part
    } else if base.last() == '/' {
        base + part
    } else {
        base + "/"@ + part
    }
}

/// Joins a relative component onto a base path.
pub fn join(base: &str, part: &str) -> (r: String)
    requires
        part@.len() > 0 && part@[0] != '/',
    ensures
        r@ == join_path(base@, part@),
{
    let b = chars_of(base);
    let mut s = owned(base);
    if b.len() > 0 && b[b.len() - 1] != '/' {
        s.append("/");
    }
    s.append(part);
    s
}

/// The text before the first `:` (all of it when there is none), as
/// `split(':').next()` gives it.
pub open spec fn first_segment(s: Seq<char>) -> Seq<char>
    decreases s.len(),
{
    if s.len() == 0 {
        Seq::empty()
    } else if s[0] == ':' {
        Seq::empty()
    } else {
        seq![s[0]] + first_segment(s.drop_first())
    }
}

fn first_segment_exec(s: &str) -> (r: String)
    ensures
        r@ == first_segment(s@),
{
    let cs = chars_of(s);
    let mut i: usize = 0;
    assert(cs@.skip(0) =~= cs@);
    assert(cs@.take(0) =~= Seq::<char>::empty());
    while i < cs.len() && cs[i] != ':'
        invariant
            i <= cs@.len(),
            cs@ == s@,
            first_segment(s@) == cs@.take(i as int) + first_segment(cs@.skip(i as int)),
        decreases cs@.len() - i,
    {
        assert(cs@.skip(i as int)[0] == cs@[i as int]);
        assert(cs@.skip(i as int).drop_first() =~= cs@.skip(i + 1));
        assert(cs@.take(i + 1) =~= cs@.take(i as int) + seq![cs@[i as int]]);
        i = i + 1;
    }
    if i == cs.len() {
        assert(cs@.skip(i as int) =~= Seq::<char>::empty());
    } else {
        assert(cs@.skip(i as int)[0] == ':');
    }
    assert(first_segment(s@) =~= cs@.take(i as int));
    let mut v: Vec<char> = Vec::new();
    let mut j: usize = 0;
    while j < i
        invariant
            j <= i <= cs@.len(),
            v@ == cs@.take(j as int),
        decreases i - j,
    {
        v.push(cs[j]);
        assert(v@ =~= cs@.take(j + 1));
        j = j + 1;
    }
    string_from_chars(&v)
}

/// The home directory, or `fallback` when `HOME` is unset.
pub open spec fn home_or(home: Option<Seq<char>>, fallback: Seq<char>) -> Seq<char> {
    match home {
        Some(h) => h,
        None => fallback,
    }
}

fn home_or_exec(home: Option<&str>, fallback: &str) -> (r: String)
    ensures
        r@ == home_or(crate::text::opt_text(home), fallback@),
{
    match home {
        Some(h) => owned(h),
        None => owned(fallback),
    }
}

/// The kubeconfig file: the first entry of `KUBECONFIG` when it is set,
/// else `~/.kube/config` (with `/` for an unset home).
pub open spec fn kubeconfig_path_spec(kubeconfig: Option<Seq<char>>, home: Option<Seq<char>>) -> Seq<
    char,
> {
    match kubeconfig {
        Some(k) => first_segment(k),
        None => join_path(join_path(home_or(home, "/"@), ".kube"@), "config"@),
    }
}

/// Resolves the kubeconfig path from the `KUBECONFIG` and `HOME` values.
pub fn kubeconfig_path(kubeconfig: Option<&str>, home: Option<&str>) -> (r: String)
    ensures
        r@ == kubeconfig_path_spec(crate::text::opt_text(kubeconfig), crate::text::opt_text(home)),
{
    proof {
        reveal_strlit(".kube");
        reveal_strlit("config");
    }
    match kubeconfig {
        Some(k) => first_segment_exec(k),
        None => {
            let h = home_or_exec(home, "/");
            let d = join(h.as_str(), ".kube");
            join(d.as_str(), "config")
        },
    }
}

/// The application's configuration directory: `$XDG_CONFIG_HOME/rusticlens`
/// or `~/.config/rusticlens` (with `/` for an unset home).
pub open spec fn config_dir_spec(xdg: Option<Seq<char>>, home: Option<Seq<char>>) -> Seq<char> {
    match xdg {
        Some(d) => join_path(d, "rusticlens"@),
        None => join_path(join_path(home_or(home, "/"@), ".config"@), "rusticlens"@),
    }
}

fn config_dir(xdg: Option<&str>, home: Option<&str>) -> (r: String)
    ensures
        r@ == config_dir_spec(crate::text::opt_text(xdg), crate::text::opt_text(home)),
{
    proof {
        reveal_strlit("rusticlens");
        reveal_strlit(".config");
    }
    match xdg {
        Some(d) => join(d, "rusticlens"),
        None => {
            let h = home_or_exec(home, "/");
            let c = join(h.as_str(), ".config");
            join(c.as_str(), "rusticlens")
        },
    }
}

/// The settings file, from the `XDG_CONFIG_HOME` and `HOME` values.
pub fn settings_path(xdg_config_home: Option<&str>, home: Option<&str>) -> (r: String)
    ensures
        r@ == join_path(
            config_dir_spec(crate::text::opt_text(xdg_config_home), crate::text::opt_text(home)),
            "settings.json"@,
        ),
{
    proof {
        reveal_strlit("settings.json");
    }
    let d = config_dir(xdg_config_home, home);
    join(d.as_str(), "settings.json")
}

/// The plugin directory, beside the settings file.
pub fn plugins_dir(xdg_config_home: Option<&str>, home: Option<&str>) -> (r: String)
    ensures
        r@ == join_path(
            config_dir_spec(crate::text::opt_text(xdg_config_home), crate::text::opt_text(home)),
            "plugins"@,
        ),
{
    proof {
        reveal_strlit("plugins");
    }
    let d = config_dir(xdg_config_home, home);
    join(d.as_str(), "plugins")
}

/// The example plugin manifest inside the plugin directory.
pub fn example_manifest_path(xdg_config_home: Option<&str>, home: Option<&str>) -> (r: String)
    ensures
        r@ == join_path(
            join_path(
                config_dir_spec(crate::text::opt_text(xdg_config_home), crate::text::opt_text(home)),
                "plugins"@,
            ),
            "example.toml"@,
        ),
{
    proof {
        reveal_strlit("example.toml");
    }
    let d = plugins_dir(xdg_config_home, home);
    join(d.as_str(), "example.toml")
}

/// The cluster cache file: `$XDG_CACHE_HOME/rusticlens/cluster-cache.json`
/// or `~/.cache/rusticlens/cluster-cache.json` (with `.` for an unset home).
pub fn cluster_cache_path(xdg_cache_home: Option<&str>, home: Option<&str>) -> (r: String)
    ensures
        r@ == join_path(
            join_path(
                match crate::text::opt_text(xdg_cache_home) {
                    Some(d) => d,
                    None => join_path(home_or(crate::text::opt_text(home), "."@), ".cache"@),
                },
                "rusticlens"@,
            ),
            "cluster-cache.json"@,
        ),
{
    proof {
        reveal_strlit("rusticlens");
        reveal_strlit(".cache");
        reveal_strlit("cluster-cache.json");
    }
    let base = match xdg_cache_home {
        Some(d) => owned(d),
        None => {
            let h = home_or_exec(home, ".");
            join(h.as_str(), ".cache")
        },
    };
    let d = join(base.as_str(), "rusticlens");
    join(d.as_str(), "cluster-cache.json")
}

} // verus!
