//! Plugins notified when a cluster connection succeeds.
use vstd::prelude::*;

use crate::text::owned;

verus! {

/// A plugin hook.  Implementations are the users' own: nothing is promised
/// of what they do.
pub trait RusticlensPlugin: Send + Sync {
    fn name(&self) -> &str;

    fn on_cluster_connected(&self, context: &str) -> Result<(), String>;
}

/// One registered plugin, as the registry holds it.
pub struct PluginEntry {
    pub plugin: Box<dyn RusticlensPlugin>,
}

/// Appends an entry to a list.
fn push_entry(v: &mut Vec<PluginEntry>, e: PluginEntry)
    ensures
        final(v)@.len() == old(v)@.len() + 1,
        forall|i: int| 0 <= i < old(v)@.len() ==> final(v)@[i] == old(v)@[i],
        final(v)@[old(v)@.len() as int] == e,
{
    v.push(e);
}

/// The registered plugins, in registration order.
pub struct PluginRegistry {
    plugins: Vec<PluginEntry>,
}

impl PluginRegistry {
    /// The entries of the registered plugins, in registration order.
    pub closed spec fn registered(&self) -> Seq<PluginEntry> {
        self.plugins@
    }

    /// The number of registered plugins.
    pub closed spec fn count(&self) -> nat {
        self.plugins@.len()
    }

    /// An empty registry.
    pub fn new() -> (r: Self)
        ensures
            r.count() == 0,
    {
        PluginRegistry { plugins: Vec::new() }
    }

    /// Adds a plugin after the registered ones: the earlier ones keep their
    /// places, and the plugin passed in comes last.
    pub fn register(&mut self, plugin: Box<dyn RusticlensPlugin>)
        ensures
            final(self).count() == old(self).count() + 1,
            final(self).registered() == old(self).registered().push(PluginEntry { plugin }),
    {
        let ghost p = plugin;
        let entry = PluginEntry { plugin };
        assert(entry == PluginEntry { plugin: p });
        let ghost before = self.plugins@;
        push_entry(&mut self.plugins, entry);
        assert(self.plugins@ =~= before.push(PluginEntry { plugin: p }));
    }

    /// Tells every plugin, in registration order, that `context` is
    /// connected; returns `(plugin name, error)` for each that failed, in
    /// that order (see `plugin_failures`).  What each plugin answers is its
    /// own affair, so the result is stated for some answers, one per
    /// registered plugin.
    pub fn notify_connected(&self, context: &str) -> (r: Vec<(String, String)>)
        ensures
            r@.len() <= self.count(),
            exists|names: Seq<String>, answers: Seq<Result<(), String>>|
                names.len() == self.count() && answers.len() == self.count() && failures_view(r@)
                    == #[trigger] failures_among(paired(names, answers)),
    {
        let mut names: Vec<String> = Vec::new();
        let mut answers: Vec<Result<(), String>> = Vec::new();
        let mut i: usize = 0;
        while i < self.plugins.len()
            invariant
                i <= self.plugins@.len(),
                names@.len() == i,
                answers@.len() == i,
            decreases self.plugins@.len() - i,
        {
            let plugin = &self.plugins[i].plugin;
            let answer = plugin.on_cluster_connected(context);
            // Only a plugin that failed is asked for its name.
            let name = match &answer {
                Ok(()) => String::new(),
                Err(_) => owned(plugin.name()),
            };
            names.push(name);
            answers.push(answer);
            i = i + 1;
        }
        let r = plugin_failures(names, answers);
        proof {
            lemma_failures_len(paired(names@, answers@));
        }
        r
    }
}

/// Each plugin's answer paired with its name: nothing for one that
/// accepted, its name and error for one that failed.
pub open spec fn paired(names: Seq<String>, answers: Seq<Result<(), String>>) -> Seq<
    Option<(Seq<char>, Seq<char>)>,
> {
    Seq::new(
        answers.len(),
        |i: int|
            match answers[i] {
                Ok(()) => None,
                Err(e) => Some((names[i]@, e@)),
            },
    )
}

/// There are no more failures than answers.
proof fn lemma_failures_len(answers: Seq<Option<(Seq<char>, Seq<char>)>>)
    ensures
        failures_among(answers).len() <= answers.len(),
    decreases answers.len(),
{
    if answers.len() > 0 {
        lemma_failures_len(answers.drop_last());
    }
}

/// The failures among the plugins' answers, in order: `(name, error)` for
/// every plugin whose answer is an error, paired with the name at the same
/// position.
pub fn plugin_failures(names: Vec<String>, answers: Vec<Result<(), String>>) -> (r: Vec<(String, String)>)
    requires
        names@.len() == answers@.len(),
    ensures
        failures_view(r@) == failures_among(paired(names@, answers@)),
{
    let ghost all = paired(names@, answers@);
    let mut failures: Vec<(String, String)> = Vec::new();
    let mut i: usize = 0;
    while i < answers.len()
        invariant
            names@.len() == answers@.len(),
            i <= answers@.len(),
            all == paired(names@, answers@),
            failures_view(failures@) == failures_among(all.take(i as int)),
        decreases answers@.len() - i,
    {
        assert(all.take(i + 1).drop_last() =~= all.take(i as int));
        assert(all.take(i + 1).last() == all[i as int]);
        let ghost before = failures_view(failures@);
        match &answers[i] {
            Ok(()) => {},
            Err(e) => {
                failures.push((owned(names[i].as_str()), owned(e.as_str())));
                assert(failures_view(failures@) =~= before.push((names@[i as int]@, e@)));
            },
        }
        i = i + 1;
    }
    assert(all.take(answers@.len() as int) =~= all);
    failures
}

/// The texts of a list of failures.
pub open spec fn failures_view(v: Seq<(String, String)>) -> Seq<(Seq<char>, Seq<char>)> {
    v.map_values(|f: (String, String)| (f.0@, f.1@))
}

/// The failures among the plugins' answers, in order: each answer is nothing
/// for a plugin that accepted, or its name and error for one that failed.
pub open spec fn failures_among(answers: Seq<Option<(Seq<char>, Seq<char>)>>) -> Seq<(Seq<char>, Seq<char>)>
    decreases answers.len(),
{
    if answers.len() == 0 {
        Seq::empty()
    } else {
        let rest = failures_among(answers.drop_last());
        match answers.last() {
            Some(f) => rest.push(f),
            None => rest,
        }
    }
}

/// Built-in plugin that only reports the connection.
pub struct LoggingPlugin;

impl RusticlensPlugin for LoggingPlugin {
    /// Its name is `logging`.
    fn name(&self) -> (r: &str)
        ensures
            r@ == "logging"@,
    {
        "logging"
    }

    /// It accepts every connection.
    fn on_cluster_connected(&self, context: &str) -> (r: Result<(), String>)
        ensures
            r is Ok,
    {
        Ok(())
    }
}

/// What a plugin manifest declares.
#[derive(Debug, Clone)]
pub struct PluginManifest {
    pub name: String,
    pub description: String,
    /// Shell command run when a cluster connects.
    pub on_connect: Option<String>,
}

/// Whether a plugin's answer is a failure.
pub open spec fn failed() -> spec_fn(Option<(Seq<char>, Seq<char>)>) -> bool {
    |a: Option<(Seq<char>, Seq<char>)>| a is Some
}

/// The failures reported are the failed answers, all of them and in their
/// order, the last answer included.
pub proof fn law_failures_are_failed_answers(answers: Seq<Option<(Seq<char>, Seq<char>)>>)
    ensures
        failures_among(answers) == answers.filter(failed()).map_values(
            |a: Option<(Seq<char>, Seq<char>)>| a->0,
        ),
    decreases answers.len(),
{
    if answers.len() > 0 {
        let d = answers.drop_last();
        law_failures_are_failed_answers(d);
        assert(d.push(answers.last()) =~= answers);
        d.lemma_filter_push(answers.last(), failed());
        if answers.last() is Some {
            assert(d.filter(failed()).push(answers.last()).map_values(
                |a: Option<(Seq<char>, Seq<char>)>| a->0,
            ) =~= d.filter(failed()).map_values(|a: Option<(Seq<char>, Seq<char>)>| a->0).push(
                answers.last()->0,
            ));
        }
    } else {
        assert(answers.filter(failed()) =~= Seq::<Option<(Seq<char>, Seq<char>)>>::empty()) by {
            reveal(Seq::filter);
        }
        assert(failures_among(answers) =~= answers.filter(failed()).map_values(
            |a: Option<(Seq<char>, Seq<char>)>| a->0,
        ));
    }
}

} // verus!
