//! Whether this machine can do what the TUI will ask of it: `kubectl` and
//! `kubelogin` on `PATH`, an `az login`, and every scope in `config.toml`
//! answering `get pods`.

use vstd::prelude::*;
use vstd::string::*;

use crate::config::{tab_views, tabs_of, Config, Tab, TabView};
use crate::json::{json_read, Json, JsonView};
use crate::text;
use crate::text::{has, texts};

use super::report::{
    answer_view, call, document, document_or_null, first_line, line, row, said_or,
    text_or, version, Call, CallView,
};

verus! {

/// How far the check is.
#[derive(Clone, Copy, Debug, PartialEq, Eq, Structural)]
pub enum Stage {
    Kubectl,
    Kubelogin,
    Login,
    /// One tab's scope, by index.
    Scope(usize),
    Over,
}

/// A check of the machine and the configuration.
#[derive(Debug)]
pub struct Doctor {
    pub tabs: Vec<Tab>,
    pub stage: Stage,
    pub ok: bool,
}

pub struct DoctorView {
    pub tabs: Seq<TabView>,
    pub stage: Stage,
    pub ok: bool,
}

impl View for Doctor {
    type V = DoctorView;

    open spec fn view(&self) -> DoctorView {
        DoctorView { tabs: tab_views(self.tabs@), stage: self.stage, ok: self.ok }
    }
}

/// What a cheap read of a scope is called with: the first pod's name, or
/// nothing.
pub open spec fn probe_arguments(tab: TabView) -> Seq<Seq<char>> {
    seq![
        "--context"@,
        tab.scope.context,
        "--request-timeout=10s"@,
        "get"@,
        "pods"@,
        "--limit=1"@,
        "-o"@,
        "name"@,
    ] + match tab.scope.namespace {
        Some(namespace) => seq!["-n"@, namespace],
        None => seq!["--all-namespaces"@],
    }
}

/// What `kubectl` says of itself, out of what it wrote.
pub open spec fn client_version(version: JsonView) -> Seq<char> {
    text_or(version.at("clientVersion"@).at("gitVersion"@), "ok"@)
}

/// Who is logged in, out of what `az` wrote.
pub open spec fn login_of(account: JsonView) -> Seq<char> {
    text_or(account.at("user"@).at("name"@), "?"@) + " \u{b7} tenant "@ + text_or(
        account.at("tenantId"@),
        "?"@,
    )
}

/// What a scope that did not answer is told as.
pub open spec fn refusal(message: Seq<char>) -> Seq<char> {
    (if has(message, "Forbidden"@) {
        "forbidden"@
    } else {
        "FAIL"@
    }) + " \u{2014} "@ + message
}

impl DoctorView {
    pub open spec fn fresh(tabs: Seq<TabView>) -> DoctorView {
        DoctorView { tabs, stage: Stage::Kubectl, ok: true }
    }

    /// The stage is one there is a call for.
    pub open spec fn holds(self) -> bool {
        self.stage matches Stage::Scope(index) ==> index < self.tabs.len()
    }

    /// The call that is next, while the check is not over.
    pub open spec fn next_call(self) -> Option<CallView> {
        match self.stage {
            Stage::Kubectl => Some(
                CallView {
                    program: "kubectl"@,
                    arguments: seq!["version"@, "--client"@, "-o"@, "json"@],
                },
            ),
            Stage::Kubelogin => Some(
                CallView { program: "kubelogin"@, arguments: seq!["--version"@] },
            ),
            Stage::Login => Some(
                CallView {
                    program: "az"@,
                    arguments: seq!["account"@, "show"@, "-o"@, "json"@],
                },
            ),
            Stage::Scope(index) => Some(
                CallView {
                    program: "kubectl"@,
                    arguments: probe_arguments(self.tabs[index as int]),
                },
            ),
            Stage::Over => None,
        }
    }

    /// What is printed once the call that is next ended so, after so long.
    pub open spec fn says(self, answer: Result<Seq<char>, Seq<char>>, took: Seq<char>) -> Seq<
        char,
    > {
        match self.stage {
            Stage::Kubectl => row(
                "kubectl"@,
                match answer {
                    Ok(raw) => client_version(document_or_null(json_read(raw))),
                    Err(error) => "FAIL "@ + error,
                },
            ),
            Stage::Kubelogin => row(
                "kubelogin"@,
                match answer {
                    Ok(raw) => first_line(raw),
                    Err(_) => {
                        "not on PATH \u{2014} a cluster with Entra ID sign-in needs it (https://azure.github.io/kubelogin/)"@
                    },
                },
            ),
            Stage::Login => row(
                "az login"@,
                match answer {
                    Ok(raw) => login_of(document_or_null(json_read(raw))),
                    Err(error) => "no \u{2014} "@ + error,
                },
            ) + if self.tabs.len() == 0 {
                row(
                    "config"@,
                    "no [[clusters]] \u{2014} run `aks-tui setup`, or copy config.example.toml"@,
                )
            } else {
                "\n"@
            },
            Stage::Scope(index) => row(
                self.tabs[index as int].scope.describe(),
                match answer {
                    Ok(_) => "ok ("@ + took + ")"@,
                    Err(error) => refusal(error),
                },
            ),
            Stage::Over => ""@,
        }
    }

    /// Where the check stands once the call that is next worked or did not.
    /// Without tabs there is nothing to probe, and nothing is well.
    pub open spec fn after(self, worked: bool) -> DoctorView {
        match self.stage {
            Stage::Kubectl => DoctorView {
                stage: Stage::Kubelogin,
                ok: self.ok && worked,
                ..self
            },
            Stage::Kubelogin => DoctorView { stage: Stage::Login, ..self },
            Stage::Login => if self.tabs.len() == 0 {
                DoctorView { stage: Stage::Over, ok: false, ..self }
            } else {
                DoctorView { stage: Stage::Scope(0), ..self }
            },
            Stage::Scope(index) => DoctorView {
                stage: if index + 1 < self.tabs.len() {
                    Stage::Scope((index + 1) as usize)
                } else {
                    Stage::Over
                },
                ok: self.ok && worked,
                ..self
            },
            Stage::Over => self,
        }
    }

    /// Where the check stands after these calls worked or did not.
    pub open spec fn after_all(self, worked: Seq<bool>) -> DoctorView
        decreases worked.len(),
    {
        if worked.len() == 0 {
            self
        } else {
            self.after_all(worked.drop_last()).after(worked.last())
        }
    }
}

/// The line `kubectl` gets, out of what it wrote.
pub fn client_said(version: &Json) -> (said: String)
    ensures
        said@ == client_version(version@),
{
    said_or(version.at("clientVersion").at("gitVersion"), "ok")
}

/// The line the login gets, out of what `az` wrote.
pub fn login_said(account: &Json) -> (said: String)
    ensures
        said@ == login_of(account@),
{
    said_or(account.at("user").at("name"), "?").concat(" \u{b7} tenant ").concat(
        said_or(account.at("tenantId"), "?").as_str(),
    )
}

/// One cheap read of the scope: the first pod's name, or nothing.
fn probe(tab: &Tab) -> (probe: Call)
    ensures
        probe@ == (CallView { program: "kubectl"@, arguments: probe_arguments(tab@) }),
{
    let mut probe = call(
        "kubectl",
        &[
            "--context",
            tab.scope.context.as_str(),
            "--request-timeout=10s",
            "get",
            "pods",
            "--limit=1",
            "-o",
            "name",
        ],
    );
    let ghost front = seq![
        "--context"@,
        tab@.scope.context,
        "--request-timeout=10s"@,
        "get"@,
        "pods"@,
        "--limit=1"@,
        "-o"@,
        "name"@,
    ];
    assert(texts(probe.arguments@) =~= front);
    let ghost before = probe.arguments@;
    match &tab.scope.namespace {
        Some(namespace) => {
            probe.arguments.push("-n".to_owned());
            probe.arguments.push(namespace.clone());
            assert(texts(probe.arguments@) =~= texts(before) + seq!["-n"@, namespace@]);
        },
        None => {
            probe.arguments.push("--all-namespaces".to_owned());
            assert(texts(probe.arguments@) =~= texts(before) + seq!["--all-namespaces"@]);
        },
    }
    probe
}

impl Doctor {
    /// A check of every tab the configuration has.
    pub fn new(config: &Config) -> (doctor: Self)
        ensures
            doctor@ == DoctorView::fresh(tabs_of(config@.clusters)),
    {
        Doctor { tabs: config.tabs(), stage: Stage::Kubectl, ok: true }
    }

    /// The call that is next, while the check is not over.
    pub fn next_call(&self) -> (next: Option<Call>)
        requires
            self@.holds(),
        ensures
            next is Some <==> self@.next_call() is Some,
            next matches Some(next) ==> self@.next_call() == Some(next@),
    {
        match self.stage {
            Stage::Kubectl => {
                let next = call("kubectl", &["version", "--client", "-o", "json"]);
                assert(next@.arguments =~= seq!["version"@, "--client"@, "-o"@, "json"@]);
                Some(next)
            },
            Stage::Kubelogin => {
                let next = call("kubelogin", &["--version"]);
                assert(next@.arguments =~= seq!["--version"@]);
                Some(next)
            },
            Stage::Login => {
                let next = call("az", &["account", "show", "-o", "json"]);
                assert(next@.arguments =~= seq!["account"@, "show"@, "-o"@, "json"@]);
                Some(next)
            },
            Stage::Scope(index) => Some(probe(&self.tabs[index])),
            Stage::Over => None,
        }
    }

    /// Takes how the call that was next ended, and after how long. What is
    /// to be printed of it is handed back.
    pub fn answered(&mut self, answer: &Result<String, String>, took: &str) -> (said: String)
        requires
            old(self)@.holds(),
        ensures
            said@ == old(self)@.says(answer_view(*answer), took@),
            final(self)@ == old(self)@.after(answer is Ok),
            final(self)@.holds(),
    {
        match self.stage {
            Stage::Kubectl => {
                self.stage = Stage::Kubelogin;
                match answer {
                    Ok(raw) => line("kubectl", client_said(&document(raw.as_str())).as_str()),
                    Err(error) => {
                        self.ok = false;
                        line("kubectl", "FAIL ".to_owned().concat(error.as_str()).as_str())
                    },
                }
            },
            Stage::Kubelogin => {
                self.stage = Stage::Login;
                match answer {
                    Ok(raw) => line("kubelogin", version(raw.as_str()).as_str()),
                    Err(_) => line(
                        "kubelogin",
                        "not on PATH \u{2014} a cluster with Entra ID sign-in needs it (https://azure.github.io/kubelogin/)",
                    ),
                }
            },
            Stage::Login => {
                let said = match answer {
                    Ok(raw) => line("az login", login_said(&document(raw.as_str())).as_str()),
                    Err(error) => line(
                        "az login",
                        "no \u{2014} ".to_owned().concat(error.as_str()).as_str(),
                    ),
                };
                if self.tabs.len() == 0 {
                    self.stage = Stage::Over;
                    self.ok = false;
                    said.concat(
                        line(
                            "config",
                            "no [[clusters]] \u{2014} run `aks-tui setup`, or copy config.example.toml",
                        ).as_str(),
                    )
                } else {
                    self.stage = Stage::Scope(0);
                    said.concat("\n")
                }
            },
            Stage::Scope(index) => {
                let label = self.tabs[index].scope.describe();
                let count = self.tabs.len();
                self.stage = if index + 1 >= count {
                    Stage::Over
                } else {
                    Stage::Scope(index + 1)
                };
                match answer {
                    Ok(_) => line(
                        label.as_str(),
                        "ok (".to_owned().concat(took).concat(")").as_str(),
                    ),
                    Err(error) => {
                        self.ok = false;
                        let word = if text::holds(error.as_str(), "Forbidden") {
                            "forbidden"
                        } else {
                            "FAIL"
                        };
                        line(
                            label.as_str(),
                            word.to_owned().concat(" \u{2014} ").concat(
                                error.as_str(),
                            ).as_str(),
                        )
                    },
                }
            },
            Stage::Over => "".to_owned(),
        }
    }
}

proof fn lemma_first_calls(tabs: Seq<TabView>, worked: Seq<bool>)
    requires
        worked.len() == 3,
    ensures
        DoctorView::fresh(tabs).after_all(worked) == (DoctorView {
            tabs,
            stage: if tabs.len() == 0 {
                Stage::Over
            } else {
                Stage::Scope(0)
            },
            ok: worked[0] && tabs.len() > 0,
        }),
{
    let fresh = DoctorView::fresh(tabs);
    let two = worked.drop_last();
    let one = two.drop_last();
    assert(one.drop_last() =~= seq![]);
    assert(one.last() == worked[0]);
    assert(fresh.after_all(one.drop_last()) == fresh);
    assert(fresh.after_all(one) == fresh.after(worked[0]));
    assert(fresh.after_all(two) == fresh.after_all(one).after(two.last()));
    assert(fresh.after_all(worked) == fresh.after_all(two).after(worked.last()));
}

proof fn lemma_scope_calls(tabs: Seq<TabView>, worked: Seq<bool>)
    requires
        0 < tabs.len() <= usize::MAX,
        3 <= worked.len() <= 3 + tabs.len(),
    ensures
        ({
            let done = worked.len() - 3;
            let left = DoctorView::fresh(tabs).after_all(worked);
            &&& left.tabs == tabs
            &&& left.stage == if done < tabs.len() {
                Stage::Scope(done as usize)
            } else {
                Stage::Over
            }
            &&& left.ok <==> worked[0] && forall|at: int| 3 <= at < worked.len() ==> worked[at]
        }),
    decreases worked.len(),
{
    if worked.len() == 3 {
        lemma_first_calls(tabs, worked);
    } else {
        let before = worked.drop_last();
        lemma_scope_calls(tabs, before);
        assert(before[0] == worked[0]);
        assert(forall|at: int| 3 <= at < before.len() ==> before[at] == worked[at]);
        if DoctorView::fresh(tabs).after_all(worked).ok {
            assert forall|at: int| 3 <= at < worked.len() implies worked[at] by {
                if at < before.len() {
                    assert(before[at]);
                }
            }
        } else if worked[0] && worked.last() {
            let at = choose|at: int| 3 <= at < before.len() && !before[at];
            assert(!worked[at]);
        }
    }
}

/// The check is over once the three tools and every scope have answered, and
/// it passes exactly when `kubectl` is there and every scope answered. What
/// `kubelogin` and `az` said does not decide it.
pub proof fn law_the_check_passes_when_every_scope_answers(
    tabs: Seq<TabView>,
    worked: Seq<bool>,
)
    requires
        0 < tabs.len() <= usize::MAX,
        worked.len() == 3 + tabs.len(),
    ensures
        DoctorView::fresh(tabs).after_all(worked).stage is Over,
        DoctorView::fresh(tabs).after_all(worked).ok <==> worked[0] && forall|at: int|
            3 <= at < worked.len() ==> worked[at],
{
    lemma_scope_calls(tabs, worked);
}

/// A configuration with no clusters fails the check, whatever the tools
/// said, and no scope is probed.
pub proof fn law_no_clusters_fail_the_check_before_any_probe(worked: Seq<bool>)
    requires
        worked.len() == 3,
    ensures
        DoctorView::fresh(seq![]).after_all(worked).stage is Over,
        !DoctorView::fresh(seq![]).after_all(worked).ok,
{
    lemma_first_calls(seq![], worked);
}

/// The check asks each program for what it can say, then each scope for a
/// pod, by its own context and in its own namespace.
pub proof fn law_the_check_asks_each_scope_its_own_way(
    doctor: DoctorView,
    index: usize,
    namespace: Seq<char>,
)
    requires
        index < doctor.tabs.len(),
    ensures
        ({
            let scope = doctor.tabs[index as int].scope;
            let asked = (DoctorView { stage: Stage::Scope(index), ..doctor }).next_call();
            &&& asked is Some
            &&& asked->0.program == "kubectl"@
            &&& asked->0.arguments[0] == "--context"@
            &&& asked->0.arguments[1] == scope.context
            &&& asked->0.arguments.contains("get"@) && asked->0.arguments.contains("pods"@)
            &&& scope.namespace == Some(namespace) ==> asked->0.arguments.skip(8) == seq![
                "-n"@,
                namespace,
            ]
            &&& scope.namespace is None ==> asked->0.arguments.skip(8) == seq!["--all-namespaces"@]
        }),
        (DoctorView { stage: Stage::Kubectl, ..doctor }).next_call() matches Some(call)
            && call.program == "kubectl"@ && call.arguments == seq![
            "version"@,
            "--client"@,
            "-o"@,
            "json"@,
        ],
        (DoctorView { stage: Stage::Kubelogin, ..doctor }).next_call() matches Some(call)
            && call.program == "kubelogin"@ && call.arguments == seq!["--version"@],
        (DoctorView { stage: Stage::Login, ..doctor }).next_call() matches Some(call)
            && call.program == "az"@ && call.arguments == seq!["account"@, "show"@, "-o"@, "json"@],
        (DoctorView { stage: Stage::Over, ..doctor }).next_call() is None,
{
    let tab = doctor.tabs[index as int];
    let all = probe_arguments(tab);
    assert(all[3] == "get"@ && all[4] == "pods"@);
    if let Some(held) = tab.scope.namespace {
        assert(all.skip(8) =~= seq!["-n"@, held]);
    } else {
        assert(all.skip(8) =~= seq!["--all-namespaces"@]);
    }
}

/// The check says of each scope that it answered and how fast, that the role
/// does not allow it, or that it failed and why; and of each program what it
/// said or that it failed.
pub proof fn law_the_check_says_what_each_answered(
    doctor: DoctorView,
    index: usize,
    raw: Seq<char>,
    error: Seq<char>,
    took: Seq<char>,
)
    requires
        index < doctor.tabs.len(),
    ensures
        ({
            let asked = DoctorView { stage: Stage::Scope(index), ..doctor };
            let scope = doctor.tabs[index as int].scope.describe();
            &&& asked.says(Ok(raw), took) == row(scope, "ok ("@ + took + ")"@)
            &&& has(error, "Forbidden"@) ==> asked.says(Err(error), took) == row(
                scope,
                "forbidden"@ + " \u{2014} "@ + error,
            )
            &&& !text::has(error, "Forbidden"@) ==> asked.says(Err(error), took) == row(
                scope,
                "FAIL"@ + " \u{2014} "@ + error,
            )
        }),
        (DoctorView { stage: Stage::Kubectl, ..doctor }).says(Err(error), took) == row(
            "kubectl"@,
            "FAIL "@ + error,
        ),
        (DoctorView { stage: Stage::Kubelogin, ..doctor }).says(Ok(raw), took) == row(
            "kubelogin"@,
            first_line(raw),
        ),
{
}

/// What `kubectl` says of itself is its version, and who is logged in is the
/// user and the tenant, with a mark for what is not said.
pub proof fn law_the_version_and_the_login_are_read(
    version: JsonView,
    account: JsonView,
    said: Seq<char>,
    user: Seq<char>,
    tenant: Seq<char>,
)
    ensures
        version.at("clientVersion"@).at("gitVersion"@) == JsonView::Text(said) ==> client_version(
            version,
        ) == said,
        version is Null ==> client_version(version) == "ok"@,
        account.at("user"@).at("name"@) == JsonView::Text(user) && account.at("tenantId"@)
            == JsonView::Text(tenant) ==> login_of(account) == user + " \u{b7} tenant "@ + tenant,
        account is Null ==> login_of(account) == "?"@ + " \u{b7} tenant "@ + "?"@,
{
}

/// What the check says of the programs that are missing, of the login, and of
/// a configuration without clusters.
pub proof fn law_the_check_says_what_is_missing(
    doctor: DoctorView,
    error: Seq<char>,
    took: Seq<char>,
)
    ensures
        (DoctorView { stage: Stage::Kubelogin, ..doctor }).says(Err(error), took) == row(
            "kubelogin"@,
            "not on PATH \u{2014} a cluster with Entra ID sign-in needs it (https://azure.github.io/kubelogin/)"@,
        ),
        doctor.tabs.len() > 0 ==> (DoctorView { stage: Stage::Login, ..doctor }).says(
            Err(error),
            took,
        ) == row("az login"@, "no \u{2014} "@ + error) + "\n"@,
        doctor.tabs.len() == 0 ==> (DoctorView { stage: Stage::Login, ..doctor }).says(
            Err(error),
            took,
        ) == row("az login"@, "no \u{2014} "@ + error) + row(
            "config"@,
            "no [[clusters]] \u{2014} run `aks-tui setup`, or copy config.example.toml"@,
        ),
        (DoctorView { stage: Stage::Over, ..doctor }).says(Err(error), took).len() == 0,
{
    reveal_strlit("");
}

/// A probe asks for one pod and waits ten seconds at most.
pub proof fn law_a_probe_asks_for_one_pod(tab: TabView)
    ensures
        probe_arguments(tab).take(8) == seq![
            "--context"@,
            tab.scope.context,
            "--request-timeout=10s"@,
            "get"@,
            "pods"@,
            "--limit=1"@,
            "-o"@,
            "name"@,
        ],
{
    assert(probe_arguments(tab).take(8) =~= seq![
        "--context"@,
        tab.scope.context,
        "--request-timeout=10s"@,
        "get"@,
        "pods"@,
        "--limit=1"@,
        "-o"@,
        "name"@,
    ]);
}

/// A scope that does not answer fails the check, one that does leaves it as
/// it was, and a missing `kubelogin` or login is no failure.
pub proof fn law_an_answer_is_counted(
    doctor: &mut Doctor,
    answer: &Result<String, String>,
    took: &str,
    said: String,
)
    requires
        call_ensures(Doctor::answered, (doctor, answer, took), said),
    ensures
        old(doctor)@.stage is Scope || old(doctor)@.stage is Kubectl ==> (final(doctor)@.ok <==> old(
            doctor
        )@.ok && answer is Ok),
        old(doctor)@.stage is Kubelogin ==> final(doctor)@.ok == old(doctor)@.ok,
        old(doctor)@.stage is Login && old(doctor)@.tabs.len() > 0 ==> final(doctor)@.ok == old(
            doctor
        )@.ok,
        final(doctor)@.tabs == old(doctor)@.tabs,
{
}

} // verus!
