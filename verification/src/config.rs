//! What `config.toml` says: the clusters, the namespaces of each that have a
//! tab, and how often the open tab is read.

use vstd::prelude::*;
use vstd::string::*;

use crate::text;
use crate::text::{copy_maybe, maybe, same, same_maybe, texts};

verus! {

/// One namespace of one cluster, or every namespace of it.
#[derive(Debug, PartialEq, Eq)]
pub struct Scope {
    /// The cluster's name in `config.toml`.
    pub cluster: String,
    /// The kubeconfig context that reaches it.
    pub context: String,
    /// `None` reads every namespace.
    pub namespace: Option<String>,
}

pub struct ScopeView {
    pub cluster: Seq<char>,
    pub context: Seq<char>,
    pub namespace: Option<Seq<char>>,
}

impl View for Scope {
    type V = ScopeView;

    open spec fn view(&self) -> ScopeView {
        ScopeView {
            cluster: self.cluster@,
            context: self.context@,
            namespace: maybe(self.namespace),
        }
    }
}

impl ScopeView {
    /// `qa/dev`, or the cluster alone for every namespace of it.
    pub open spec fn describe(self) -> Seq<char> {
        match self.namespace {
            Some(namespace) => self.cluster + "/"@ + namespace,
            None => self.cluster,
        }
    }

    /// The namespace, or the cluster for every namespace of it.
    pub open spec fn short_label(self) -> Seq<char> {
        match self.namespace {
            Some(namespace) => namespace,
            None => self.cluster,
        }
    }
}

impl Clone for Scope {
    fn clone(&self) -> (copy: Self)
        ensures
            copy@ == self@,
    {
        Scope {
            cluster: self.cluster.clone(),
            context: self.context.clone(),
            namespace: copy_maybe(&self.namespace),
        }
    }
}

impl Scope {
    /// Whether the two are the same namespace, reached the same way.
    pub fn same(&self, other: &Self) -> (answer: bool)
        ensures
            answer == (self@ == other@),
    {
        same(self.cluster.as_str(), other.cluster.as_str()) && same(
            self.context.as_str(),
            other.context.as_str(),
        ) && same_maybe(&self.namespace, &other.namespace)
    }

    /// `qa/dev`, or the cluster alone for every namespace of it.
    pub fn describe(&self) -> (said: String)
        ensures
            said@ == self@.describe(),
    {
        match &self.namespace {
            Some(namespace) => self.cluster.clone().concat("/").concat(namespace.as_str()),
            None => self.cluster.clone(),
        }
    }

    /// What a narrow tab bar falls back to.
    pub fn short_label(&self) -> (label: &str)
        ensures
            label@ == self@.short_label(),
    {
        match &self.namespace {
            Some(namespace) => namespace.as_str(),
            None => self.cluster.as_str(),
        }
    }
}

/// One tab: what the bar calls it, and what it lists.
#[derive(Debug, PartialEq, Eq)]
pub struct Tab {
    pub label: String,
    pub scope: Scope,
}

pub struct TabView {
    pub label: Seq<char>,
    pub scope: ScopeView,
}

impl View for Tab {
    type V = TabView;

    open spec fn view(&self) -> TabView {
        TabView { label: self.label@, scope: self.scope@ }
    }
}

impl Clone for Tab {
    fn clone(&self) -> (copy: Self)
        ensures
            copy@ == self@,
    {
        Tab { label: self.label.clone(), scope: self.scope.clone() }
    }
}

/// What each tab is.
pub open spec fn tab_views(tabs: Seq<Tab>) -> Seq<TabView> {
    tabs.map_values(|tab: Tab| tab@)
}

/// One `[[clusters]]` table.
#[derive(Debug, PartialEq, Eq)]
pub struct ClusterConfig {
    pub name: String,
    /// Left out: the name.
    pub context: Option<String>,
    /// Left out: one tab over every namespace.
    pub namespaces: Vec<String>,
}

pub struct ClusterConfigView {
    pub name: Seq<char>,
    pub context: Option<Seq<char>>,
    pub namespaces: Seq<Seq<char>>,
}

impl View for ClusterConfig {
    type V = ClusterConfigView;

    open spec fn view(&self) -> ClusterConfigView {
        ClusterConfigView {
            name: self.name@,
            context: maybe(self.context),
            namespaces: texts(self.namespaces@),
        }
    }
}

impl Clone for ClusterConfig {
    fn clone(&self) -> (copy: Self)
        ensures
            copy@ == self@,
    {
        ClusterConfig {
            name: self.name.clone(),
            context: copy_maybe(&self.context),
            namespaces: text::copy_texts(&self.namespaces),
        }
    }
}

impl ClusterConfigView {
    pub open spec fn reached_by(self) -> Seq<char> {
        match self.context {
            Some(context) => context,
            None => self.name,
        }
    }

    /// The tab over the namespace at `at`. A cluster with one namespace needs
    /// no more than its name.
    pub open spec fn tab(self, at: int) -> TabView {
        TabView {
            label: if self.namespaces.len() == 1 {
                self.name
            } else {
                self.name + "/"@ + self.namespaces[at]
            },
            scope: ScopeView {
                cluster: self.name,
                context: self.reached_by(),
                namespace: Some(self.namespaces[at]),
            },
        }
    }

    /// One tab for each namespace, or one over all of them.
    pub open spec fn tabs(self) -> Seq<TabView> {
        if self.namespaces.len() == 0 {
            seq![
                TabView {
                    label: self.name,
                    scope: ScopeView {
                        cluster: self.name,
                        context: self.reached_by(),
                        namespace: None,
                    },
                },
            ]
        } else {
            Seq::new(self.namespaces.len(), |at: int| self.tab(at))
        }
    }
}

/// Every cluster's tabs, in the file's order.
pub open spec fn tabs_of(clusters: Seq<ClusterConfigView>) -> Seq<TabView>
    decreases clusters.len(),
{
    if clusters.len() == 0 {
        seq![]
    } else {
        tabs_of(clusters.drop_last()) + clusters.last().tabs()
    }
}

/// What each cluster's table says.
pub open spec fn cluster_views(clusters: Seq<ClusterConfig>) -> Seq<ClusterConfigView> {
    clusters.map_values(|cluster: ClusterConfig| cluster@)
}

/// The whole file.
#[derive(Debug, PartialEq, Eq)]
pub struct Config {
    pub clusters: Vec<ClusterConfig>,
    /// Seconds between reads of the open tab.
    pub refresh: Option<u64>,
    /// Which palette to paint with.
    pub theme: Option<String>,
}

pub struct ConfigView {
    pub clusters: Seq<ClusterConfigView>,
    pub refresh: Option<u64>,
    pub theme: Option<Seq<char>>,
}

impl View for Config {
    type V = ConfigView;

    open spec fn view(&self) -> ConfigView {
        ConfigView {
            clusters: cluster_views(self.clusters@),
            refresh: self.refresh,
            theme: maybe(self.theme),
        }
    }
}

impl Clone for Config {
    fn clone(&self) -> (copy: Self)
        ensures
            copy@ == self@,
    {
        let mut clusters: Vec<ClusterConfig> = Vec::new();
        let mut at: usize = 0;
        while at < self.clusters.len()
            invariant
                at <= self.clusters@.len(),
                clusters@.len() == at,
                forall|k: int| 0 <= k < at ==> (#[trigger] clusters@[k])@ == self.clusters@[k]@,
            decreases self.clusters@.len() - at,
        {
            clusters.push(self.clusters[at].clone());
            at += 1;
        }
        assert(cluster_views(clusters@) =~= cluster_views(self.clusters@));
        Config { clusters, refresh: self.refresh, theme: copy_maybe(&self.theme) }
    }
}

impl Default for Config {
    /// A file that says nothing.
    fn default() -> (config: Self)
        ensures
            config@ == (ConfigView { clusters: seq![], refresh: None, theme: None }),
    {
        let config = Config { clusters: Vec::new(), refresh: None, theme: None };
        assert(config@.clusters =~= seq![]);
        config
    }
}

impl Config {
    /// Every namespace is a tab, in the file's order.
    pub fn tabs(&self) -> (tabs: Vec<Tab>)
        ensures
            tab_views(tabs@) == tabs_of(self@.clusters),
    {
        let ghost clusters = self@.clusters;
        let mut tabs: Vec<Tab> = Vec::new();
        let mut at: usize = 0;
        assert(tab_views(tabs@) =~= tabs_of(clusters.take(0)));
        while at < self.clusters.len()
            invariant
                at <= self.clusters@.len(),
                clusters == cluster_views(self.clusters@),
                tab_views(tabs@) == tabs_of(clusters.take(at as int)),
            decreases self.clusters@.len() - at,
        {
            let cluster = &self.clusters[at];
            let ghost held = cluster@;
            let ghost before = tab_views(tabs@);
            assert(clusters[at as int] == held);
            let context = match &cluster.context {
                Some(context) => context.clone(),
                None => cluster.name.clone(),
            };
            if cluster.namespaces.len() == 0 {
                tabs.push(
                    Tab {
                        label: cluster.name.clone(),
                        scope: Scope {
                            cluster: cluster.name.clone(),
                            context: context,
                            namespace: None,
                        },
                    },
                );
                assert(tab_views(tabs@) =~= before + held.tabs());
            } else {
                let mut index: usize = 0;
                assert(before + held.tabs().take(0) =~= before);
                while index < cluster.namespaces.len()
                    invariant
                        index <= cluster.namespaces@.len(),
                        cluster.namespaces@.len() > 0,
                        held == cluster@,
                        context@ == held.reached_by(),
                        tab_views(tabs@) == before + held.tabs().take(index as int),
                    decreases cluster.namespaces@.len() - index,
                {
                    let namespace = &cluster.namespaces[index];
                    let label = if cluster.namespaces.len() == 1 {
                        cluster.name.clone()
                    } else {
                        cluster.name.clone().concat("/").concat(namespace.as_str())
                    };
                    let ghost so_far = tabs@;
                    tabs.push(
                        Tab {
                            label,
                            scope: Scope {
                                cluster: cluster.name.clone(),
                                context: context.clone(),
                                namespace: Some(namespace.clone()),
                            },
                        },
                    );
                    assert(tabs@.last()@ == held.tabs()[index as int]);
                    assert(tab_views(tabs@) =~= tab_views(so_far).push(held.tabs()[index as int]));
                    assert(held.tabs().take(index as int + 1) =~= held.tabs().take(
                        index as int,
                    ).push(held.tabs()[index as int]));
                    index += 1;
                }
                assert(held.tabs().take(index as int) =~= held.tabs());
            }
            assert(clusters.take(at as int + 1).drop_last() =~= clusters.take(at as int));
            at += 1;
        }
        assert(clusters.take(at as int) =~= clusters);
        tabs
    }
}

/// Clusters give their tabs in the order of the file.
pub proof fn law_the_tabs_are_in_the_order_of_the_file(
    a: Seq<ClusterConfigView>,
    b: Seq<ClusterConfigView>,
    one: ClusterConfigView,
)
    ensures
        tabs_of(a + b) == tabs_of(a) + tabs_of(b),
        tabs_of(seq![one]).len() == if one.namespaces.len() == 0 {
            1
        } else {
            one.namespaces.len()
        },
        tabs_of(seq![one]) == one.tabs(),
    decreases b.len(),
{
    let alone = seq![one];
    assert(alone.drop_last() =~= Seq::empty());
    assert(tabs_of(alone.drop_last()) =~= seq![]);
    assert(tabs_of(alone) =~= one.tabs());
    if b.len() == 0 {
        assert(a + b =~= a);
        assert(tabs_of(a) + tabs_of(b) =~= tabs_of(a));
    } else {
        law_the_tabs_are_in_the_order_of_the_file(a, b.drop_last(), one);
        assert((a + b).drop_last() =~= a + b.drop_last());
        assert((a + b).last() == b.last());
        assert(tabs_of(a + b) =~= tabs_of(a) + tabs_of(b));
    }
}

/// Each namespace of a cluster is a tab, called by the cluster alone where
/// there is one of them and by both where there are more; a cluster with no
/// namespaces is a single tab over all of them. Each is reached by the
/// context of the cluster, which is its name where none is given.
pub proof fn law_each_namespace_is_a_tab(cluster: ClusterConfigView, at: int)
    requires
        0 <= at < cluster.tabs().len(),
    ensures
        ({
            let tab = cluster.tabs()[at];
            &&& cluster.namespaces.len() == 0 ==> tab.scope.namespace is None && tab.label
                == cluster.name
            &&& cluster.namespaces.len() == 1 ==> tab.label == cluster.name
            &&& cluster.namespaces.len() > 1 ==> tab.label == cluster.name + "/"@
                + cluster.namespaces[at]
            &&& cluster.namespaces.len() > 0 ==> tab.scope.namespace == Some(cluster.namespaces[at])
            &&& tab.scope.cluster == cluster.name
            &&& cluster.context is None ==> tab.scope.context == cluster.name
            &&& cluster.context is Some ==> Some(tab.scope.context) == cluster.context
        }),
{
}

/// A scope is described by its cluster and its namespace, and in short by
/// the namespace; one over every namespace is its cluster either way.
pub proof fn law_a_scope_is_described_by_its_parts(scope: ScopeView, namespace: Seq<char>)
    ensures
        scope.namespace is None ==> scope.describe() == scope.cluster && scope.short_label()
            == scope.cluster,
        scope.namespace == Some(namespace) ==> scope.describe() == scope.cluster + "/"@ + namespace
            && scope.short_label() == namespace,
{
}

} // verus!
