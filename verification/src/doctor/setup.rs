//! The first-day work: `az aks list`, `az aks get-credentials` for each
//! cluster, `kubelogin convert-kubeconfig -l azurecli` so kubectl borrows the
//! `az login` rather than asking for a device code on every read, and a
//! `[[clusters]]` block per cluster with its namespaces, printed to trim into
//! `config.toml` — or written there when the file does not exist yet.

use vstd::prelude::*;
use vstd::string::*;

use crate::json;
use crate::json::{json_read, views, Json, JsonView};
use crate::text;
use crate::text::{copy_texts, join, lines, pad, starts_with, texts, trim};

use super::report::{answer_view, call, line, row, Call, CallView};

verus! {

/// One cluster `az aks list` named.
#[derive(Debug, PartialEq, Eq)]
pub struct Cluster {
    pub name: String,
    pub resource_group: String,
    pub namespaces: Vec<String>,
}

pub struct ClusterView {
    pub name: Seq<char>,
    pub resource_group: Seq<char>,
    pub namespaces: Seq<Seq<char>>,
}

impl View for Cluster {
    type V = ClusterView;

    open spec fn view(&self) -> ClusterView {
        ClusterView {
            name: self.name@,
            resource_group: self.resource_group@,
            namespaces: texts(self.namespaces@),
        }
    }
}

impl Clone for Cluster {
    fn clone(&self) -> (copy: Self)
        ensures
            copy@ == self@,
    {
        Cluster {
            name: self.name.clone(),
            resource_group: self.resource_group.clone(),
            namespaces: copy_texts(&self.namespaces),
        }
    }
}

/// What each cluster is.
pub open spec fn cluster_views(held: Seq<Cluster>) -> Seq<ClusterView> {
    held.map_values(|cluster: Cluster| cluster@)
}

/// A namespace every AKS cluster has that nobody wants a tab for.
pub open spec fn is_system(name: Seq<char>) -> bool {
    ||| name == "default"@
    ||| name == "kube-system"@
    ||| name == "kube-public"@
    ||| name == "kube-node-lease"@
    ||| name == "gatekeeper-system"@
    ||| name == "calico-system"@
    ||| name == "tigera-operator"@
    ||| name == "azure-arc"@
    ||| name == "app-routing-system"@
    ||| name == "aks-command"@
    ||| name == "aks-istio-system"@
    ||| name == "aks-istio-ingress"@
    ||| name == "aks-istio-egress"@
}

/// Whether a namespace is one AKS put there rather than the team.
pub fn is_system_namespace(name: &str) -> (answer: bool)
    ensures
        answer == is_system(name@),
{
    text::same(name, "default") || text::same(name, "kube-system") || text::same(
        name,
        "kube-public",
    ) || text::same(name, "kube-node-lease") || text::same(name, "gatekeeper-system")
        || text::same(name, "calico-system") || text::same(name, "tigera-operator") || text::same(
        name,
        "azure-arc",
    ) || text::same(name, "app-routing-system") || text::same(name, "aks-command") || text::same(
        name,
        "aks-istio-system",
    ) || text::same(name, "aks-istio-ingress") || text::same(name, "aks-istio-egress")
}

/// A text in double quotes, with what cannot stand there escaped, as the
/// standard library's `Debug` of a `str` writes it.
pub uninterp spec fn debug_text(held: Seq<char>) -> Seq<char>;

/// A text of printable ASCII in which there is no quote and no backslash.
pub open spec fn is_plain(held: Seq<char>) -> bool {
    forall|at: int|
        0 <= at < held.len() ==> ' ' <= #[trigger] held[at] <= '~' && held[at] != '"' && held[at]
            != '\'' && held[at] != '\\'
}

/// A text between two double quotes.
pub open spec fn in_quotes(held: Seq<char>) -> Seq<char> {
    seq!['"'] + held + seq!['"']
}

/// The `Debug` of a `str`, by `format!`: the text alone decides it, and a
/// plain one is printed as it is between two double quotes. How it escapes
/// what is not plain is not stated.
#[verifier::external_body]
fn quoted(held: &str) -> (printed: String)
    ensures
        printed@ == debug_text(held@),
        is_plain(held@) ==> printed@ == in_quotes(held@),
{
    format!("{held:?}")
}

/// Each text in quotes.
pub open spec fn all_quoted(held: Seq<Seq<char>>) -> Seq<Seq<char>> {
    held.map_values(|one: Seq<char>| debug_text(one))
}

/// A `[[clusters]]` block, from a name and namespaces in their quotes.
pub open spec fn block_from(name: Seq<char>, namespaces: Seq<Seq<char>>) -> Seq<char> {
    "[[clusters]]\nname = "@ + name + "\ncontext = "@ + name + "\nnamespaces = ["@ + join(
        namespaces,
        ", "@,
    ) + "]\n"@
}

/// The `[[clusters]]` block for one cluster, as `config.toml` takes it.
pub open spec fn block_of(cluster: ClusterView) -> Seq<char> {
    block_from(debug_text(cluster.name), all_quoted(cluster.namespaces))
}

/// The name and every namespace of the cluster are plain.
pub open spec fn all_plain(cluster: ClusterView) -> bool {
    &&& is_plain(cluster.name)
    &&& forall|at: int|
        0 <= at < cluster.namespaces.len() ==> is_plain(#[trigger] cluster.namespaces[at])
}

/// The `[[clusters]]` block for one cluster, as `config.toml` takes it.
pub fn cluster_block(cluster: &Cluster) -> (block: String)
    ensures
        block@ == block_of(cluster@),
        all_plain(cluster@) ==> block@ == block_from(
            in_quotes(cluster@.name),
            cluster@.namespaces.map_values(|name: Seq<char>| in_quotes(name)),
        ),
{
    let mut namespaces: Vec<String> = Vec::new();
    let ghost all = all_quoted(cluster@.namespaces);
    let mut at: usize = 0;
    assert(texts(namespaces@) =~= all.take(0));
    while at < cluster.namespaces.len()
        invariant
            at <= cluster.namespaces@.len(),
            all == all_quoted(cluster@.namespaces),
            texts(namespaces@) == all.take(at as int),
            forall|k: int|
                0 <= k < at && is_plain(#[trigger] cluster@.namespaces[k]) ==> all[k] == in_quotes(
                    cluster@.namespaces[k],
                ),
        decreases cluster.namespaces@.len() - at,
    {
        let ghost before = namespaces@;
        assert(cluster@.namespaces[at as int] == cluster.namespaces@[at as int]@);
        namespaces.push(quoted(cluster.namespaces[at].as_str()));
        assert(texts(namespaces@) =~= texts(before).push(all[at as int]));
        assert(all.take(at as int + 1) =~= all.take(at as int).push(all[at as int]));
        at += 1;
    }
    assert(all.take(at as int) =~= all);
    assert(all_plain(cluster@) ==> all =~= cluster@.namespaces.map_values(
        |name: Seq<char>| in_quotes(name),
    ));
    let name = quoted(cluster.name.as_str());
    "[[clusters]]\nname = ".to_owned().concat(name.as_str()).concat("\ncontext = ").concat(
        name.as_str(),
    ).concat("\nnamespaces = [").concat(text::joined(&namespaces, ", ").as_str()).concat("]\n")
}

/// Each cluster's block.
pub open spec fn blocks(clusters: Seq<ClusterView>) -> Seq<Seq<char>> {
    clusters.map_values(|cluster: ClusterView| block_of(cluster))
}

/// Every cluster's block, with a blank line between two.
pub fn all_blocks(clusters: &Vec<Cluster>) -> (whole: String)
    ensures
        whole@ == join(blocks(cluster_views(clusters@)), "\n"@),
{
    let mut held: Vec<String> = Vec::new();
    let ghost all = blocks(cluster_views(clusters@));
    let mut at: usize = 0;
    assert(texts(held@) =~= all.take(0));
    while at < clusters.len()
        invariant
            at <= clusters@.len(),
            all == blocks(cluster_views(clusters@)),
            texts(held@) == all.take(at as int),
        decreases clusters@.len() - at,
    {
        let ghost before = held@;
        assert(cluster_views(clusters@)[at as int] == clusters@[at as int]@);
        held.push(cluster_block(&clusters[at]));
        assert(texts(held@) =~= texts(before).push(all[at as int]));
        assert(all.take(at as int + 1) =~= all.take(at as int).push(all[at as int]));
        at += 1;
    }
    assert(all.take(at as int) =~= all);
    text::joined(&held, "\n")
}

/// The clusters a list names: every entry with a name and a resource group.
pub open spec fn clusters_in(items: Seq<JsonView>) -> Seq<ClusterView>
    decreases items.len(),
{
    if items.len() == 0 {
        seq![]
    } else {
        let before = clusters_in(items.drop_last());
        match (items.last().at("name"@).text(), items.last().at("resourceGroup"@).text()) {
            (Some(name), Some(resource_group)) => before.push(
                ClusterView { name, resource_group, namespaces: seq![] },
            ),
            _ => before,
        }
    }
}

/// The clusters that an answer of `az aks list -o json` names.
pub fn clusters_listed(listed: &Json) -> (clusters: Vec<Cluster>)
    ensures
        cluster_views(clusters@) == clusters_in(listed@.items()),
{
    let mut clusters: Vec<Cluster> = Vec::new();
    assert(cluster_views(clusters@) =~= seq![]);
    let items = match listed.items() {
        Some(items) => items,
        None => return clusters,
    };
    let ghost all = views(items@);
    let mut at: usize = 0;
    while at < items.len()
        invariant
            at <= items@.len(),
            all == views(items@),
            cluster_views(clusters@) == clusters_in(all.take(at as int)),
        decreases items@.len() - at,
    {
        assert(all.take(at as int + 1).drop_last() =~= all.take(at as int));
        assert(all.take(at as int + 1).last() == items@[at as int]@);
        if let Some(name) = items[at].at("name").text() {
            if let Some(resource_group) = items[at].at("resourceGroup").text() {
                let ghost before = clusters@;
                let cluster = Cluster {
                    name: name.to_owned(),
                    resource_group: resource_group.to_owned(),
                    namespaces: Vec::new(),
                };
                assert(cluster@.namespaces =~= seq![]);
                clusters.push(cluster);
                assert(cluster_views(clusters@) =~= cluster_views(before).push(cluster@));
            }
        }
        at += 1;
    }
    assert(all.take(at as int) =~= all);
    clusters
}

/// The namespaces that these lines of `namespace/NAME` name, but for those
/// AKS put there.
pub open spec fn named_by(held: Seq<Seq<char>>) -> Seq<Seq<char>>
    decreases held.len(),
{
    if held.len() == 0 {
        seq![]
    } else {
        let before = named_by(held.drop_last());
        let said = trim(held.last());
        let name = said.skip("namespace/"@.len() as int);
        if starts_with(said, "namespace/"@) && !is_system(name) {
            before.push(name)
        } else {
            before
        }
    }
}

/// The namespaces that an answer of `kubectl get namespaces -o name` names,
/// but for those AKS put there.
pub fn namespaces_listed(raw: &str) -> (names: Vec<String>)
    ensures
        texts(names@) == named_by(lines(raw@)),
{
    let held = text::lines_of(raw);
    let ghost all = texts(held@);
    let mut names: Vec<String> = Vec::new();
    let mut at: usize = 0;
    assert(texts(names@) =~= seq![]);
    while at < held.len()
        invariant
            at <= held@.len(),
            all == texts(held@),
            texts(names@) == named_by(all.take(at as int)),
        decreases held@.len() - at,
    {
        assert(all.take(at as int + 1).drop_last() =~= all.take(at as int));
        assert(all.take(at as int + 1).last() == held@[at as int]@);
        let said = text::trimmed(held[at].as_str());
        if let Some(name) = text::after(said.as_str(), "namespace/") {
            if !is_system_namespace(name.as_str()) {
                let ghost before = names@;
                let ghost one = name@;
                names.push(name);
                assert(texts(names@) =~= texts(before).push(one));
            }
        }
        at += 1;
    }
    assert(all.take(at as int) =~= all);
    names
}

/// How far the work is.
#[derive(Clone, Copy, Debug, PartialEq, Eq, Structural)]
pub enum Stage {
    Listing,
    /// One cluster's credentials, by index.
    Credentials(usize),
    Converting,
    /// One cluster's namespaces, by index.
    Namespaces(usize),
    /// Whether there is a file already.
    Placing,
    Writing,
    Over,
}

/// What the work needs done next.
#[derive(Debug, PartialEq, Eq)]
pub enum Need {
    /// Run this.
    Run(Call),
    /// Find out whether there is a file at the path.
    Look,
    /// Write this file at the path.
    Write(String),
    Nothing,
}

pub enum NeedView {
    Run(CallView),
    Look,
    Write(Seq<char>),
    Nothing,
}

impl View for Need {
    type V = NeedView;

    open spec fn view(&self) -> NeedView {
        match *self {
            Need::Run(call) => NeedView::Run(call@),
            Need::Look => NeedView::Look,
            Need::Write(held) => NeedView::Write(held@),
            Need::Nothing => NeedView::Nothing,
        }
    }
}

/// The first-day work, as far as it has come.
#[derive(Debug)]
pub struct Setup {
    /// Whether the blocks go to the file rather than on screen.
    pub write: bool,
    /// The file they go to.
    pub path: String,
    pub clusters: Vec<Cluster>,
    pub stage: Stage,
    /// Whether everything asked for was done.
    pub ok: bool,
    /// Why the work stopped before its end.
    pub failure: Option<String>,
}

pub struct SetupView {
    pub write: bool,
    pub path: Seq<char>,
    pub clusters: Seq<ClusterView>,
    pub stage: Stage,
    pub ok: bool,
    pub failure: Option<Seq<char>>,
}

impl View for Setup {
    type V = SetupView;

    open spec fn view(&self) -> SetupView {
        SetupView {
            write: self.write,
            path: self.path@,
            clusters: cluster_views(self.clusters@),
            stage: self.stage,
            ok: self.ok,
            failure: text::maybe(self.failure),
        }
    }
}

impl SetupView {
    pub open spec fn fresh(write: bool, path: Seq<char>) -> SetupView {
        SetupView {
            write,
            path,
            clusters: seq![],
            stage: Stage::Listing,
            ok: false,
            failure: None,
        }
    }

    /// The stage is about a cluster there is, and past the list there is
    /// one.
    pub open spec fn holds(self) -> bool {
        match self.stage {
            Stage::Listing | Stage::Over => true,
            Stage::Credentials(index) => index < self.clusters.len(),
            Stage::Namespaces(index) => index < self.clusters.len(),
            _ => self.clusters.len() > 0,
        }
    }

    /// The blocks of all clusters.
    pub open spec fn blocks(self) -> Seq<char> {
        join(blocks(self.clusters), "\n"@)
    }

    pub open spec fn need(self) -> NeedView {
        match self.stage {
            Stage::Listing => NeedView::Run(
                CallView { program: "az"@, arguments: seq!["aks"@, "list"@, "-o"@, "json"@] },
            ),
            Stage::Credentials(index) => NeedView::Run(
                CallView {
                    program: "az"@,
                    arguments: seq![
                        "aks"@,
                        "get-credentials"@,
                        "--resource-group"@,
                        self.clusters[index as int].resource_group,
                        "--name"@,
                        self.clusters[index as int].name,
                        "--overwrite-existing"@,
                    ],
                },
            ),
            Stage::Converting => NeedView::Run(
                CallView {
                    program: "kubelogin"@,
                    arguments: seq!["convert-kubeconfig"@, "-l"@, "azurecli"@],
                },
            ),
            Stage::Namespaces(index) => NeedView::Run(
                CallView {
                    program: "kubectl"@,
                    arguments: seq![
                        "--context"@,
                        self.clusters[index as int].name,
                        "--request-timeout=10s"@,
                        "get"@,
                        "namespaces"@,
                        "-o"@,
                        "name"@,
                    ],
                },
            ),
            Stage::Placing => NeedView::Look,
            Stage::Writing => NeedView::Write(
                self.blocks() + "\n# refresh = 5\n\n[theme]\n# preset = \"terminal\"\n"@,
            ),
            Stage::Over => NeedView::Nothing,
        }
    }

    /// The work stopped before its end.
    pub open spec fn failed(self, said: Seq<char>) -> SetupView {
        SetupView { stage: Stage::Over, ok: false, failure: Some(said), ..self }
    }

    /// What the list of clusters leads to.
    pub open spec fn after_list(self, read: Result<JsonView, Seq<char>>) -> SetupView {
        match read {
            Err(said) => self.failed("az answered with something other than JSON: "@ + said),
            Ok(listed) => if clusters_in(listed.items()).len() == 0 {
                self.failed(
                    "az aks list found no clusters in the current subscription; `az account set --subscription \u{2026}` and try again"@,
                )
            } else {
                SetupView {
                    clusters: clusters_in(listed.items()),
                    stage: Stage::Credentials(0),
                    ..self
                }
            },
        }
    }

    /// Where the work stands once one cluster's namespaces are known or not.
    /// After the last of them the blocks go where they were asked to.
    pub open spec fn after_namespaces(self, index: int) -> SetupView {
        if index + 1 < self.clusters.len() {
            SetupView { stage: Stage::Namespaces((index + 1) as usize), ..self }
        } else if self.write {
            SetupView { stage: Stage::Placing, ..self }
        } else {
            SetupView { stage: Stage::Over, ok: true, ..self }
        }
    }

    /// Where the work stands once the call it needed has ended.
    pub open spec fn after(self, answer: Result<Seq<char>, Seq<char>>) -> SetupView {
        match (self.stage, answer) {
            (Stage::Listing, Ok(raw)) => self.after_list(json_read(raw)),
            (Stage::Listing, Err(error)) => self.failed(
                "az aks list \u{2014} is there an `az login`?: "@ + error,
            ),
            (Stage::Credentials(index), Ok(_)) => if index + 1 < self.clusters.len() {
                SetupView { stage: Stage::Credentials((index + 1) as usize), ..self }
            } else {
                SetupView { stage: Stage::Converting, ..self }
            },
            (Stage::Credentials(index), Err(error)) => self.failed(
                "az aks get-credentials for "@ + self.clusters[index as int].name + ": "@ + error,
            ),
            (Stage::Converting, _) => SetupView { stage: Stage::Namespaces(0), ..self },
            (Stage::Namespaces(index), Ok(raw)) => SetupView {
                clusters: self.clusters.update(
                    index as int,
                    ClusterView {
                        namespaces: named_by(lines(raw)),
                        ..self.clusters[index as int]
                    },
                ),
                ..self
            }.after_namespaces(index as int),
            (Stage::Namespaces(index), Err(_)) => self.after_namespaces(index as int),
            _ => self,
        }
    }

    /// What is printed past the last cluster: a blank line, and the blocks
    /// where they were not asked for in the file.
    pub open spec fn closing(self) -> Seq<char> {
        match self.stage {
            Stage::Namespaces(_) => ""@,
            Stage::Placing => "\n"@,
            _ => "\n"@ + "# Trim to the namespaces you want tabs for and put in "@ + self.path
                + "\n# (or run `aks-tui setup --write` to write it):\n\n"@ + self.blocks(),
        }
    }

    /// What is printed once the call it needed has ended so, after so long.
    pub open spec fn says(self, answer: Result<Seq<char>, Seq<char>>, took: Seq<char>) -> Seq<
        char,
    > {
        match (self.stage, answer) {
            (Stage::Credentials(index), Ok(_)) => row(
                self.clusters[index as int].name,
                "credentials written ("@ + took + ")"@,
            ),
            (Stage::Converting, Ok(_)) => row(
                "kubelogin"@,
                "kubeconfig converted to use the az login"@,
            ),
            (Stage::Converting, Err(error)) => row(
                "kubelogin"@,
                "not converted \u{2014} "@ + error
                    + " (a cluster with Entra ID sign-in will ask for a device code until it is)"@,
            ),
            (Stage::Namespaces(_), Ok(_)) => self.after(answer).closing(),
            (Stage::Namespaces(index), Err(error)) => row(
                self.clusters[index as int].name,
                "namespaces not read \u{2014} "@ + error + "; list them by hand"@,
            ) + self.after(answer).closing(),
            _ => ""@,
        }
    }

    /// Where the work stands once it is known whether there is a file. One
    /// that is there is never touched.
    pub open spec fn after_look(self, exists: bool) -> SetupView {
        if !(self.stage is Placing) {
            self
        } else if exists {
            SetupView { stage: Stage::Over, ok: false, ..self }
        } else {
            SetupView { stage: Stage::Writing, ..self }
        }
    }

    pub open spec fn says_of_look(self, exists: bool) -> Seq<char> {
        if self.stage is Placing && exists {
            self.path + " exists; not touched. The blocks it would have had:\n\n"@ + self.blocks()
        } else {
            ""@
        }
    }

    /// Where the work stands once the file was written or was not.
    pub open spec fn after_write(self, result: Result<(), Seq<char>>) -> SetupView {
        match result {
            _ if !(self.stage is Writing) => self,
            Ok(_) => SetupView { stage: Stage::Over, ok: true, ..self },
            Err(said) => self.failed(said),
        }
    }

    pub open spec fn says_of_write(self, result: Result<(), Seq<char>>) -> Seq<char> {
        if self.stage is Writing && result is Ok {
            "wrote "@ + self.path
                + " \u{2014} trim the namespaces to the ones you want tabs for\n"@
        } else {
            ""@
        }
    }
}

/// What a write came to.
pub open spec fn write_view(result: Result<(), String>) -> Result<(), Seq<char>> {
    match result {
        Ok(_) => Ok(()),
        Err(said) => Err(said@),
    }
}

impl Setup {
    /// The work over a file at `path`, which it writes when `write` says so.
    pub fn new(write: bool, path: &str) -> (setup: Self)
        ensures
            setup@ == SetupView::fresh(write, path@),
    {
        let setup = Setup {
            write,
            path: path.to_owned(),
            clusters: Vec::new(),
            stage: Stage::Listing,
            ok: false,
            failure: None,
        };
        assert(setup@.clusters =~= seq![]);
        setup
    }

    /// What the work needs done next.
    pub fn need(&self) -> (need: Need)
        requires
            self@.holds(),
        ensures
            need@ == self@.need(),
    {
        match self.stage {
            Stage::Listing => {
                let next = call("az", &["aks", "list", "-o", "json"]);
                assert(next@.arguments =~= seq!["aks"@, "list"@, "-o"@, "json"@]);
                Need::Run(next)
            },
            Stage::Credentials(index) => {
                let cluster = &self.clusters[index];
                let next = call(
                    "az",
                    &[
                        "aks",
                        "get-credentials",
                        "--resource-group",
                        cluster.resource_group.as_str(),
                        "--name",
                        cluster.name.as_str(),
                        "--overwrite-existing",
                    ],
                );
                assert(next@.arguments =~= self@.need()->Run_0.arguments);
                Need::Run(next)
            },
            Stage::Converting => {
                let next = call("kubelogin", &["convert-kubeconfig", "-l", "azurecli"]);
                assert(next@.arguments =~= self@.need()->Run_0.arguments);
                Need::Run(next)
            },
            Stage::Namespaces(index) => {
                let next = call(
                    "kubectl",
                    &[
                        "--context",
                        self.clusters[index].name.as_str(),
                        "--request-timeout=10s",
                        "get",
                        "namespaces",
                        "-o",
                        "name",
                    ],
                );
                assert(next@.arguments =~= self@.need()->Run_0.arguments);
                Need::Run(next)
            },
            Stage::Placing => Need::Look,
            Stage::Writing => Need::Write(
                all_blocks(&self.clusters).concat(
                    "\n# refresh = 5\n\n[theme]\n# preset = \"terminal\"\n",
                ),
            ),
            Stage::Over => Need::Nothing,
        }
    }

    fn fail(&mut self, said: String)
        ensures
            final(self)@ == old(self)@.failed(said@),
    {
        self.stage = Stage::Over;
        self.ok = false;
        self.failure = Some(said);
    }

    /// Takes the list of clusters, or what is wrong with it.
    pub fn listed(&mut self, read: Result<Json, String>)
        ensures
            final(self)@ == old(self)@.after_list(
                match read {
                    Ok(listed) => Ok(listed@),
                    Err(said) => Err(said@),
                },
            ),
            old(self)@.stage is Listing ==> final(self)@.holds(),
    {
        match read {
            Err(said) => self.fail(
                "az answered with something other than JSON: ".to_owned().concat(said.as_str()),
            ),
            Ok(listed) => {
                let clusters = clusters_listed(&listed);
                if clusters.len() == 0 {
                    self.fail(
                        "az aks list found no clusters in the current subscription; `az account set --subscription \u{2026}` and try again".to_owned(),
                    );
                } else {
                    self.clusters = clusters;
                    self.stage = Stage::Credentials(0);
                }
            },
        }
    }

    /// Moves on from one cluster's namespaces, and hands back what is to be
    /// printed past the last of them.
    fn past_namespaces(&mut self, index: usize) -> (said: String)
        requires
            index < old(self)@.clusters.len(),
        ensures
            final(self)@ == old(self)@.after_namespaces(index as int),
            said@ == old(self)@.after_namespaces(index as int).closing(),
            final(self)@.holds(),
    {
        let count = self.clusters.len();
        if index + 1 < count {
            self.stage = Stage::Namespaces(index + 1);
            "".to_owned()
        } else if self.write {
            self.stage = Stage::Placing;
            "\n".to_owned()
        } else {
            self.stage = Stage::Over;
            self.ok = true;
            "\n".to_owned().concat(
                "# Trim to the namespaces you want tabs for and put in ",
            ).concat(self.path.as_str()).concat(
                "\n# (or run `aks-tui setup --write` to write it):\n\n",
            ).concat(all_blocks(&self.clusters).as_str())
        }
    }

    /// Takes how the call it needed has ended, and after how long. What is
    /// to be printed of it is handed back.
    pub fn answered(&mut self, answer: &Result<String, String>, took: &str) -> (said: String)
        requires
            old(self)@.holds(),
        ensures
            said@ == old(self)@.says(answer_view(*answer), took@),
            final(self)@ == old(self)@.after(answer_view(*answer)),
            final(self)@.holds(),
    {
        let ghost before = self@;
        match self.stage {
            Stage::Listing => {
                match answer {
                    Ok(raw) => self.listed(json::parse(raw.as_str())),
                    Err(error) => self.fail(
                        "az aks list \u{2014} is there an `az login`?: ".to_owned().concat(
                            error.as_str(),
                        ),
                    ),
                }
                "".to_owned()
            },
            Stage::Credentials(index) => {
                let name = self.clusters[index].name.clone();
                match answer {
                    Ok(_) => {
                        let count = self.clusters.len();
                        self.stage = if index + 1 < count {
                            Stage::Credentials(index + 1)
                        } else {
                            Stage::Converting
                        };
                        line(
                            name.as_str(),
                            "credentials written (".to_owned().concat(took).concat(")").as_str(),
                        )
                    },
                    Err(error) => {
                        self.fail(
                            "az aks get-credentials for ".to_owned().concat(name.as_str()).concat(
                                ": ",
                            ).concat(error.as_str()),
                        );
                        "".to_owned()
                    },
                }
            },
            Stage::Converting => {
                self.stage = Stage::Namespaces(0);
                match answer {
                    Ok(_) => line("kubelogin", "kubeconfig converted to use the az login"),
                    Err(error) => line(
                        "kubelogin",
                        "not converted \u{2014} ".to_owned().concat(error.as_str()).concat(
                            " (a cluster with Entra ID sign-in will ask for a device code until it is)",
                        ).as_str(),
                    ),
                }
            },
            Stage::Namespaces(index) => match answer {
                Ok(raw) => {
                    self.clusters[index].namespaces = namespaces_listed(raw.as_str());
                    assert(self@.clusters =~= before.clusters.update(
                        index as int,
                        ClusterView {
                            namespaces: named_by(lines(raw@)),
                            ..before.clusters[index as int]
                        },
                    ));
                    self.past_namespaces(index)
                },
                Err(error) => {
                    let said = line(
                        self.clusters[index].name.as_str(),
                        "namespaces not read \u{2014} ".to_owned().concat(error.as_str()).concat(
                            "; list them by hand",
                        ).as_str(),
                    );
                    said.concat(self.past_namespaces(index).as_str())
                },
            },
            _ => "".to_owned(),
        }
    }

    /// Takes whether there is a file at the path already. One that is there
    /// is not touched: the blocks it would have had are handed back.
    pub fn looked(&mut self, exists: bool) -> (said: String)
        requires
            old(self)@.holds(),
        ensures
            said@ == old(self)@.says_of_look(exists),
            final(self)@ == old(self)@.after_look(exists),
            final(self)@.holds(),
    {
        match self.stage {
            Stage::Placing => if exists {
                self.stage = Stage::Over;
                self.ok = false;
                self.path.clone().concat(
                    " exists; not touched. The blocks it would have had:\n\n",
                ).concat(all_blocks(&self.clusters).as_str())
            } else {
                self.stage = Stage::Writing;
                "".to_owned()
            },
            _ => "".to_owned(),
        }
    }

    /// Takes whether the file was written.
    pub fn wrote(&mut self, result: Result<(), String>) -> (said: String)
        requires
            old(self)@.holds(),
        ensures
            said@ == old(self)@.says_of_write(write_view(result)),
            final(self)@ == old(self)@.after_write(write_view(result)),
            final(self)@.holds(),
    {
        match self.stage {
            Stage::Writing => match result {
                Ok(_) => {
                    self.stage = Stage::Over;
                    self.ok = true;
                    "wrote ".to_owned().concat(self.path.as_str()).concat(
                        " \u{2014} trim the namespaces to the ones you want tabs for\n",
                    )
                },
                Err(said) => {
                    self.fail(said);
                    "".to_owned()
                },
            },
            _ => "".to_owned(),
        }
    }
}

/// A file that is already there is never written: the work is over, and
/// says that it was not done.
pub proof fn law_a_file_that_exists_is_not_touched(setup: SetupView)
    requires
        setup.stage is Placing,
    ensures
        setup.after_look(true).need() == NeedView::Nothing,
        !setup.after_look(true).ok,
        setup.after_look(true).failure == setup.failure,
{
}

/// A file is written only where that was asked for: whatever the calls come
/// to, work that was not asked to write never looks for a file, nor writes
/// one.
pub proof fn law_nothing_is_written_unasked(
    setup: SetupView,
    answer: Result<Seq<char>, Seq<char>>,
)
    requires
        !setup.write,
        !(setup.stage is Placing),
        !(setup.stage is Writing),
    ensures
        !setup.after(answer).write,
        !(setup.after(answer).need() is Look),
        !(setup.after(answer).need() is Write),
{
}

/// The namespaces that a cluster brings along are left out, and no other is.
pub proof fn law_the_clusters_own_namespaces_are_left_out(name: Seq<char>)
    ensures
        is_system(name) <==> name == "default"@ || name == "kube-system"@ || name == "kube-public"@
            || name == "kube-node-lease"@ || name == "gatekeeper-system"@ || name
            == "calico-system"@ || name == "tigera-operator"@ || name == "azure-arc"@ || name
            == "app-routing-system"@ || name == "aks-command"@ || name == "aks-istio-system"@
            || name == "aks-istio-ingress"@ || name == "aks-istio-egress"@,
{
}

/// The namespaces are read line by line, each by what stands behind its kind.
pub proof fn law_the_namespaces_are_read_line_by_line(
    a: Seq<Seq<char>>,
    b: Seq<Seq<char>>,
    one: Seq<char>,
    name: Seq<char>,
)
    ensures
        named_by(a + b) == named_by(a) + named_by(b),
        trim(one) == "namespace/"@ + name && !is_system(name) ==> named_by(seq![one]) == seq![name],
        trim(one) == "namespace/"@ + name && is_system(name) ==> named_by(seq![one]).len() == 0,
        !starts_with(trim(one), "namespace/"@) ==> named_by(seq![one]).len() == 0,
    decreases b.len(),
{
    let alone = seq![one];
    let whole = "namespace/"@ + name;
    assert(alone.drop_last() =~= Seq::empty());
    assert(named_by(alone.drop_last()) =~= seq![]);
    assert(whole.take("namespace/"@.len() as int) =~= "namespace/"@);
    assert(whole.skip("namespace/"@.len() as int) =~= name);
    if trim(one) == whole && !is_system(name) {
        assert(named_by(alone) =~= seq![name]);
    }
    if b.len() == 0 {
        assert(a + b =~= a);
        assert(named_by(a) + named_by(b) =~= named_by(a));
    } else {
        law_the_namespaces_are_read_line_by_line(a, b.drop_last(), one, name);
        assert((a + b).drop_last() =~= a + b.drop_last());
        assert((a + b).last() == b.last());
        assert(named_by(a + b) =~= named_by(a) + named_by(b));
    }
}

/// The clusters are read entry by entry, each with its own name and group,
/// and one without either is left out.
pub proof fn law_the_clusters_are_read_entry_by_entry(
    a: Seq<JsonView>,
    b: Seq<JsonView>,
    one: JsonView,
)
    ensures
        clusters_in(a + b) == clusters_in(a) + clusters_in(b),
        !(one.at("name"@) is Text) || !(one.at("resourceGroup"@) is Text) ==> clusters_in(
            seq![one],
        ).len() == 0,
        one.at("name"@) is Text && one.at("resourceGroup"@) is Text ==> {
            let found = clusters_in(seq![one]);
            &&& found.len() == 1
            &&& one.at("name"@) == JsonView::Text(found[0].name)
            &&& one.at("resourceGroup"@) == JsonView::Text(found[0].resource_group)
            &&& found[0].namespaces.len() == 0
        },
    decreases b.len(),
{
    let alone = seq![one];
    assert(alone.drop_last() =~= Seq::empty());
    assert(clusters_in(alone.drop_last()) =~= seq![]);
    if b.len() == 0 {
        assert(a + b =~= a);
        assert(clusters_in(a) + clusters_in(b) =~= clusters_in(a));
    } else {
        law_the_clusters_are_read_entry_by_entry(a, b.drop_last(), one);
        assert((a + b).drop_last() =~= a + b.drop_last());
        assert((a + b).last() == b.last());
        assert(clusters_in(a + b) =~= clusters_in(a) + clusters_in(b));
    }
}

/// The setup asks for each cluster's credentials by its own group and name,
/// and for its namespaces by its own context.
pub proof fn law_the_setup_asks_for_each_cluster_by_its_own_name(setup: SetupView, index: usize)
    requires
        index < setup.clusters.len(),
    ensures
        ({
            let cluster = setup.clusters[index as int];
            let fetching = (SetupView { stage: Stage::Credentials(index), ..setup }).need();
            let listing = (SetupView { stage: Stage::Namespaces(index), ..setup }).need();
            &&& fetching == NeedView::Run(
                CallView {
                    program: "az"@,
                    arguments: seq![
                        "aks"@,
                        "get-credentials"@,
                        "--resource-group"@,
                        cluster.resource_group,
                        "--name"@,
                        cluster.name,
                        "--overwrite-existing"@,
                    ],
                },
            )
            &&& listing == NeedView::Run(
                CallView {
                    program: "kubectl"@,
                    arguments: seq![
                        "--context"@,
                        cluster.name,
                        "--request-timeout=10s"@,
                        "get"@,
                        "namespaces"@,
                        "-o"@,
                        "name"@,
                    ],
                },
            )
        }),
        (SetupView { stage: Stage::Converting, ..setup }).need() == NeedView::Run(
            CallView {
                program: "kubelogin"@,
                arguments: seq!["convert-kubeconfig"@, "-l"@, "azurecli"@],
            },
        ),
        (SetupView { stage: Stage::Listing, ..setup }).need() == NeedView::Run(
            CallView { program: "az"@, arguments: seq!["aks"@, "list"@, "-o"@, "json"@] },
        ),
{
}

/// The setup takes the clusters in turn: every one's credentials, then the
/// conversion whether it works or not, then every one's namespaces, and is
/// done after the last, where nothing is to be written. Credentials that
/// cannot be had end it, and namespaces that cannot be read do not.
pub proof fn law_the_setup_takes_the_clusters_in_turn(
    setup: SetupView,
    index: usize,
    answer: Result<Seq<char>, Seq<char>>,
    raw: Seq<char>,
    error: Seq<char>,
)
    requires
        index < setup.clusters.len() <= usize::MAX,
    ensures
        ({
            let fetching = SetupView { stage: Stage::Credentials(index), ..setup };
            let converting = SetupView { stage: Stage::Converting, ..setup };
            let listing = SetupView { stage: Stage::Namespaces(index), ..setup };
            &&& index + 1 < setup.clusters.len() ==> fetching.after(Ok(raw)).stage
                == Stage::Credentials((index + 1) as usize)
            &&& index + 1 == setup.clusters.len() ==> fetching.after(Ok(raw)).stage
                == Stage::Converting
            &&& fetching.after(Err(error)).stage == Stage::Over && !fetching.after(Err(error)).ok
                && fetching.after(Err(error)).failure is Some
            &&& converting.after(answer).stage == Stage::Namespaces(0)
            &&& index + 1 < setup.clusters.len() ==> listing.after(answer).stage
                == Stage::Namespaces((index + 1) as usize)
            &&& index + 1 == setup.clusters.len() && setup.write ==> listing.after(answer).stage
                == Stage::Placing
            &&& index + 1 == setup.clusters.len() && !setup.write ==> listing.after(answer).stage
                == Stage::Over && listing.after(answer).ok
            &&& listing.after(Ok(raw)).clusters[index as int].namespaces == named_by(lines(raw))
            &&& listing.after(Ok(raw)).clusters[index as int].name
                == setup.clusters[index as int].name
            &&& listing.after(Err(error)).clusters == setup.clusters
        }),
{
}

/// A file is written where there is none, with the blocks of every cluster,
/// and a write that fails fails the setup.
pub proof fn law_a_file_is_written_where_there_is_none(setup: SetupView, said: Seq<char>)
    requires
        setup.stage is Placing,
    ensures
        ({
            let writing = setup.after_look(false);
            &&& writing.need() is Write
            &&& starts_with(writing.need()->Write_0, setup.blocks())
            &&& writing.after_write(Ok(())).ok
            &&& writing.after_write(Ok(())).stage is Over
            &&& !writing.after_write(Err(said)).ok
            &&& writing.after_write(Err(said)).failure == Some(said)
        }),
{
    let writing = setup.after_look(false);
    let whole = writing.need()->Write_0;
    assert(whole.take(setup.blocks().len() as int) =~= setup.blocks());
}

/// The setup says of each step what came of it: that the credentials were
/// written, that the kubeconfig was converted or why not, and which
/// namespaces could not be read.
pub proof fn law_the_setup_says_what_came_of_each_step(
    setup: SetupView,
    index: usize,
    raw: Seq<char>,
    error: Seq<char>,
    took: Seq<char>,
)
    requires
        index < setup.clusters.len(),
    ensures
        ({
            let fetching = SetupView { stage: Stage::Credentials(index), ..setup };
            let converting = SetupView { stage: Stage::Converting, ..setup };
            let listing = SetupView { stage: Stage::Namespaces(index), ..setup };
            let name = setup.clusters[index as int].name;
            &&& fetching.says(Ok(raw), took) == row(name, "credentials written ("@ + took + ")"@)
            &&& converting.says(Ok(raw), took) == row(
                "kubelogin"@,
                "kubeconfig converted to use the az login"@,
            )
            &&& starts_with(
                converting.says(Err(error), took),
                pad("kubelogin"@, 14) + ("not converted \u{2014} "@ + error),
            )
            &&& starts_with(
                listing.says(Err(error), took),
                row(name, "namespaces not read \u{2014} "@ + error + "; list them by hand"@),
            )
        }),
{
    let converting = SetupView { stage: Stage::Converting, ..setup };
    let listing = SetupView { stage: Stage::Namespaces(index), ..setup };
    let name = setup.clusters[index as int].name;
    let front = pad("kubelogin"@, 14) + ("not converted \u{2014} "@ + error);
    assert(converting.says(Err(error), took).take(front.len() as int) =~= front);
    let first = row(name, "namespaces not read \u{2014} "@ + error + "; list them by hand"@);
    assert(listing.says(Err(error), took).take(first.len() as int) =~= first);
}

/// A list that names no cluster, is no JSON or cannot be had ends the setup
/// with its reason, and one that names some goes on to their credentials.
pub proof fn law_a_list_of_clusters_starts_the_walk(
    setup: SetupView,
    listed: JsonView,
    items: Seq<JsonView>,
    said: Seq<char>,
)
    requires
        listed == JsonView::Array(items),
    ensures
        clusters_in(items).len() > 0 ==> setup.after_list(Ok(listed)).stage == Stage::Credentials(0)
            && setup.after_list(Ok(listed)).clusters == clusters_in(items),
        clusters_in(items).len() == 0 ==> setup.after_list(Ok(listed)).stage is Over
            && !setup.after_list(Ok(listed)).ok && setup.after_list(Ok(listed)).failure is Some,
        setup.after_list(Err(said)).stage is Over && !setup.after_list(Err(said)).ok,
        setup.after_list(Err(said)).failure is Some,
        (SetupView { stage: Stage::Listing, ..setup }).after(Err(said)).stage is Over,
        (SetupView { stage: Stage::Listing, ..setup }).after(Err(said)).failure is Some,
{
}

/// The setup says why it stopped: that the list could not be had, read or
/// had nothing in it, and whose credentials could not be had.
pub proof fn law_the_setup_says_why_it_stopped(
    setup: SetupView,
    index: usize,
    listed: JsonView,
    error: Seq<char>,
)
    requires
        index < setup.clusters.len(),
    ensures
        (SetupView { stage: Stage::Listing, ..setup }).after(Err(error)).failure == Some(
            "az aks list \u{2014} is there an `az login`?: "@ + error,
        ),
        setup.after_list(Err(error)).failure == Some(
            "az answered with something other than JSON: "@ + error,
        ),
        listed is Null ==> setup.after_list(Ok(listed)).failure == Some(
            "az aks list found no clusters in the current subscription; `az account set --subscription \u{2026}` and try again"@,
        ),
        (SetupView { stage: Stage::Credentials(index), ..setup }).after(Err(error)).failure == Some(
            "az aks get-credentials for "@ + setup.clusters[index as int].name + ": "@ + error,
        ),
{
}

/// The block of a cluster has its name, the same name as its context, and its
/// namespaces, each in quotes.
pub proof fn law_a_block_has_the_cluster_and_its_namespaces(
    name: Seq<char>,
    one: Seq<char>,
    other: Seq<char>,
)
    ensures
        block_from(name, seq![]) == "[[clusters]]\nname = "@ + name + "\ncontext = "@ + name
            + "\nnamespaces = ["@ + "]\n"@,
        block_from(name, seq![one]) == "[[clusters]]\nname = "@ + name + "\ncontext = "@ + name
            + "\nnamespaces = ["@ + one + "]\n"@,
        block_from(name, seq![one, other]) == "[[clusters]]\nname = "@ + name + "\ncontext = "@
            + name + "\nnamespaces = ["@ + (one + ", "@ + other) + "]\n"@,
        in_quotes(name).len() == name.len() + 2,
        in_quotes(name)[0] == '"' && in_quotes(name).last() == '"',
        in_quotes(name).subrange(1, name.len() as int + 1) == name,
{
    reveal_with_fuel(join, 3);
    assert(seq![one].drop_last() =~= seq![]);
    assert(seq![one, other].drop_last() =~= seq![one]);
    assert(join(Seq::<Seq<char>>::empty(), ", "@) =~= Seq::<char>::empty());
    assert(join(seq![one], ", "@) =~= one);
    assert(join(seq![one, other], ", "@) =~= one + ", "@ + other);
    assert(block_from(name, seq![]) =~= "[[clusters]]\nname = "@ + name + "\ncontext = "@ + name
        + "\nnamespaces = ["@ + "]\n"@);
    assert(in_quotes(name).subrange(1, name.len() as int + 1) =~= name);
}

/// A text of printed characters, but for quotes and backslashes, is plain.
pub proof fn law_a_plain_text_is_printed_as_it_is(a: Seq<char>, c: char)
    ensures
        is_plain(seq![]),
        is_plain(a + seq![c]) <==> is_plain(a) && ' ' <= c <= '~' && c != '"' && c != '\'' && c
            != '\\',
{
    let all = a + seq![c];
    assert(all[a.len() as int] == c);
    if is_plain(all) {
        assert forall|at: int| 0 <= at < a.len() implies ' ' <= #[trigger] a[at] <= '~' && a[at]
            != '"' && a[at] != '\'' && a[at] != '\\' by {
            assert(all[at] == a[at]);
        }
    }
}

/// What the setup shows on screen, leaves alone and writes: the blocks of
/// every cluster, with where they go.
pub proof fn law_the_setup_shows_or_writes_the_blocks(setup: SetupView, said: Seq<char>)
    ensures
        setup.stage is Over ==> setup.closing() == "\n"@
            + "# Trim to the namespaces you want tabs for and put in "@ + setup.path
            + "\n# (or run `aks-tui setup --write` to write it):\n\n"@ + setup.blocks(),
        setup.stage is Placing ==> setup.closing() == "\n"@,
        setup.stage is Namespaces ==> setup.closing().len() == 0,
        setup.stage is Placing ==> setup.says_of_look(true) == setup.path
            + " exists; not touched. The blocks it would have had:\n\n"@ + setup.blocks(),
        setup.says_of_look(false).len() == 0,
        setup.stage is Writing ==> setup.says_of_write(Ok(())) == "wrote "@ + setup.path
            + " \u{2014} trim the namespaces to the ones you want tabs for\n"@,
        setup.says_of_write(Err(said)).len() == 0,
        setup.stage is Writing ==> setup.need() == NeedView::Write(
            setup.blocks() + "\n# refresh = 5\n\n[theme]\n# preset = \"terminal\"\n"@,
        ),
{
    reveal_strlit("");
}

/// The blocks stand one under the other, in the order of the clusters.
pub proof fn law_the_blocks_stand_in_order(clusters: Seq<ClusterView>, at: int)
    requires
        0 <= at < clusters.len(),
    ensures
        blocks(clusters).len() == clusters.len(),
        blocks(clusters)[at] == block_from(
            debug_text(clusters[at].name),
            clusters[at].namespaces.map_values(|one: Seq<char>| debug_text(one)),
        ),
{
}

} // verus!
