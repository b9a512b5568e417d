//! One call of `kubectl`: what it is given, what its end means, and the one
//! line of its complaint that says what to fix.

use vstd::prelude::*;
use vstd::string::*;

use crate::config::{Scope, ScopeView};
use crate::json;
use crate::json::{json_read, JsonView};
use crate::text;
use crate::text::{
    decimal, first_index, has, is_digit, is_space, lines, starts_with, texts, trim, trim_end,
    trim_start,
};

use super::pod::{pod_views, Pod, PodView};
use super::reading::{pods_listed, pods_of};

verus! {

/// The bound on every one-shot call's request. A cluster that cannot be
/// reached answers in ten seconds rather than never.
pub const REQUEST_TIMEOUT: &'static str = "--request-timeout=10s";

/// The bound on the whole call in nanoseconds, request or not: a credential
/// plugin waiting on a device-code login is the one thing
/// `--request-timeout` cannot end.
pub const CALL_CAP: u128 = 20_000_000_000;

/// How long a call is left alone between two looks at it, in nanoseconds.
pub const LOOK_AGAIN: u128 = 20_000_000;

/// `E0830 12:00:00.000000   12345 round_trippers.go:…] …`: the client's own
/// log line.
pub open spec fn is_log_line(line: Seq<char>) -> bool {
    &&& line.len() > 5
    &&& line[0] == 'E' || line[0] == 'W' || line[0] == 'I' || line[0] == 'F'
    &&& forall|at: int| 1 <= at < 5 ==> is_digit(#[trigger] line[at])
    &&& line[5] == ' '
}

/// The lines that say something, trimmed: neither blank nor the client's own
/// log.
pub open spec fn telling(all: Seq<Seq<char>>) -> Seq<Seq<char>>
    decreases all.len(),
{
    if all.len() == 0 {
        seq![]
    } else {
        let before = telling(all.drop_last());
        let line = trim(all.last());
        if line.len() == 0 || is_log_line(line) {
            before
        } else {
            before.push(line)
        }
    }
}

/// The line names the login to run.
pub open spec fn names_login(line: Seq<char>) -> bool {
    has(line, "az login"@)
}

/// The line gives the reason.
pub open spec fn gives_reason(line: Seq<char>) -> bool {
    ||| starts_with(line, "error:"@)
    ||| starts_with(line, "Error from server"@)
    ||| starts_with(line, "Unable to connect"@)
}

/// Where the first line stands that `wanted` picks, or past the last.
pub open spec fn first_where(all: Seq<Seq<char>>, wanted: spec_fn(Seq<char>) -> bool) -> nat
    decreases all.len(),
{
    if all.len() == 0 || wanted(all[0]) {
        0
    } else {
        1 + first_where(all.skip(1), wanted)
    }
}

/// The line to show: the first that names the login to run, else the first
/// that gives the reason, else the first of all.
pub open spec fn chosen(all: Seq<Seq<char>>) -> Option<Seq<char>> {
    let login = first_where(all, |line: Seq<char>| names_login(line));
    let reason = first_where(all, |line: Seq<char>| gives_reason(line));
    if login < all.len() {
        Some(all[login as int])
    } else if reason < all.len() {
        Some(all[reason as int])
    } else if all.len() > 0 {
        Some(all[0])
    } else {
        None
    }
}

/// The one line of a complaint, without the `error:` in front of it.
pub open spec fn complaint_line(stderr: Seq<char>) -> Seq<char> {
    match chosen(telling(lines(stderr))) {
        Some(line) => if starts_with(line, "error:"@) {
            trim(line.skip("error:"@.len() as int))
        } else {
            line
        },
        None => "kubectl failed"@,
    }
}

/// No line feed stands in the text.
pub open spec fn is_one_line(text: Seq<char>) -> bool {
    !text.contains('\n')
}

proof fn lemma_first_index(s: Seq<char>, c: char)
    ensures
        first_index(s, c) <= s.len(),
        forall|k: int| 0 <= k < first_index(s, c) ==> #[trigger] s[k] != c,
    decreases s.len(),
{
    if s.len() > 0 && s[0] != c {
        lemma_first_index(s.skip(1), c);
        assert forall|k: int| 0 <= k < first_index(s, c) implies #[trigger] s[k] != c by {
            if k > 0 {
                assert(s.skip(1)[k - 1] == s[k]);
            }
        }
    }
}

proof fn lemma_lines_are_lines(s: Seq<char>)
    ensures
        forall|k: int| 0 <= k < lines(s).len() ==> is_one_line(#[trigger] lines(s)[k]),
    decreases s.len(),
{
    lemma_first_index(s, '\n');
    let at = first_index(s, '\n') as int;
    if s.len() > 0 && at < s.len() {
        lemma_lines_are_lines(s.skip(at + 1));
        assert forall|k: int| 0 <= k < lines(s).len() implies is_one_line(
            #[trigger] lines(s)[k],
        ) by {
            if k > 0 {
                assert(lines(s)[k] == lines(s.skip(at + 1))[k - 1]);
            }
        }
    }
}

proof fn lemma_trimmed_is_one_line(s: Seq<char>)
    requires
        is_one_line(s),
    ensures
        is_one_line(trim_start(s)),
        is_one_line(trim_end(s)),
    decreases s.len(),
{
    if s.len() > 0 {
        if is_space(s[0]) {
            assert forall|k: int| 0 <= k < s.skip(1).len() implies #[trigger] s.skip(1)[k]
                != '\n' by {
                assert(s.skip(1)[k] == s[k + 1]);
            }
            lemma_trimmed_is_one_line(s.skip(1));
        }
        if is_space(s.last()) {
            assert forall|k: int| 0 <= k < s.drop_last().len() implies #[trigger] s.drop_last()[k]
                != '\n' by {
                assert(s.drop_last()[k] == s[k]);
            }
            lemma_trimmed_is_one_line(s.drop_last());
        }
    }
}

proof fn lemma_telling_is_lines(all: Seq<Seq<char>>)
    requires
        forall|k: int| 0 <= k < all.len() ==> is_one_line(#[trigger] all[k]),
    ensures
        forall|k: int| 0 <= k < telling(all).len() ==> is_one_line(#[trigger] telling(all)[k]),
    decreases all.len(),
{
    if all.len() > 0 {
        assert forall|k: int| 0 <= k < all.drop_last().len() implies is_one_line(
            #[trigger] all.drop_last()[k],
        ) by {
            assert(all.drop_last()[k] == all[k]);
        }
        lemma_telling_is_lines(all.drop_last());
        assert(is_one_line(all[all.len() - 1]));
        lemma_trimmed_is_one_line(all.last());
        lemma_trimmed_is_one_line(trim_start(all.last()));
        let before = telling(all.drop_last());
        assert forall|k: int| 0 <= k < telling(all).len() implies is_one_line(
            #[trigger] telling(all)[k],
        ) by {
            if k < before.len() {
                assert(telling(all)[k] == before[k]);
            }
        }
    }
}

/// Whatever a call complains of, what is shown of it is one line.
pub proof fn law_a_complaint_is_one_line(stderr: Seq<char>)
    ensures
        is_one_line(complaint_line(stderr)),
{
    let all = telling(lines(stderr));
    lemma_lines_are_lines(stderr);
    lemma_telling_is_lines(lines(stderr));
    if let Some(line) = chosen(all) {
        assert(is_one_line(line));
        if starts_with(line, "error:"@) {
            let rest = line.skip("error:"@.len() as int);
            assert forall|k: int| 0 <= k < rest.len() implies #[trigger] rest[k] != '\n' by {
                assert(rest[k] == line[k + "error:"@.len()]);
            }
            lemma_trimmed_is_one_line(rest);
            lemma_trimmed_is_one_line(trim_start(rest));
        }
    } else {
        reveal_strlit("kubectl failed");
    }
}

/// `E0830 12:00:00.000000   12345 round_trippers.go:…] …`: the client's own
/// log line, which says nothing a person can act on.
fn is_klog(line: &str) -> (answer: bool)
    ensures
        answer == is_log_line(line@),
{
    let chars = text::chars_of(line);
    if chars.len() < 6 {
        return false;
    }
    let first = chars[0];
    if first != 'E' && first != 'W' && first != 'I' && first != 'F' {
        return false;
    }
    let mut at: usize = 1;
    while at < 5
        invariant
            1 <= at <= 5,
            chars@.len() > 5,
            chars@ == line@,
            forall|k: int| 1 <= k < at ==> is_digit(#[trigger] line@[k]),
        decreases 5 - at,
    {
        let c = chars[at];
        if c < '0' || c > '9' {
            assert(!is_digit(line@[at as int]));
            return false;
        }
        at += 1;
    }
    chars[5] == ' '
}

/// The lines that say something, trimmed.
fn telling_lines(stderr: &str) -> (kept: Vec<String>)
    ensures
        texts(kept@) == telling(lines(stderr@)),
{
    let found = text::lines_of(stderr);
    let ghost all = texts(found@);
    let mut kept: Vec<String> = Vec::new();
    let mut at: usize = 0;
    assert(texts(kept@) =~= seq![]);
    while at < found.len()
        invariant
            at <= found@.len(),
            all == texts(found@),
            texts(kept@) == telling(all.take(at as int)),
        decreases found@.len() - at,
    {
        assert(all.take(at as int + 1).drop_last() =~= all.take(at as int));
        assert(all.take(at as int + 1).last() == found@[at as int]@);
        let line = text::trimmed(found[at].as_str());
        if !line.as_str().is_empty() && !is_klog(line.as_str()) {
            let ghost before = kept@;
            let ghost said = line@;
            kept.push(line);
            assert(texts(kept@) =~= texts(before).push(said));
        }
        at += 1;
    }
    assert(all.take(at as int) =~= all);
    kept
}

fn first_login(held: &Vec<String>) -> (at: usize)
    ensures
        at == first_where(texts(held@), |line: Seq<char>| names_login(line)),
        at <= held@.len(),
{
    let ghost all = texts(held@);
    let ghost wanted = |line: Seq<char>| names_login(line);
    let mut at: usize = 0;
    assert(all.skip(0) =~= all);
    while at < held.len()
        invariant
            at <= held@.len(),
            all == texts(held@),
            wanted == (|line: Seq<char>| names_login(line)),
            first_where(all, wanted) == at + first_where(all.skip(at as int), wanted),
        decreases held@.len() - at,
    {
        assert(all.skip(at as int)[0] == held@[at as int]@);
        if text::holds(held[at].as_str(), "az login") {
            return at;
        }
        assert(all.skip(at as int).skip(1) =~= all.skip(at as int + 1));
        at += 1;
    }
    at
}

fn first_reason(held: &Vec<String>) -> (at: usize)
    ensures
        at == first_where(texts(held@), |line: Seq<char>| gives_reason(line)),
        at <= held@.len(),
{
    let ghost all = texts(held@);
    let ghost wanted = |line: Seq<char>| gives_reason(line);
    let mut at: usize = 0;
    assert(all.skip(0) =~= all);
    while at < held.len()
        invariant
            at <= held@.len(),
            all == texts(held@),
            wanted == (|line: Seq<char>| gives_reason(line)),
            first_where(all, wanted) == at + first_where(all.skip(at as int), wanted),
        decreases held@.len() - at,
    {
        assert(all.skip(at as int)[0] == held@[at as int]@);
        let line = held[at].as_str();
        if text::begins(line, "error:") || text::begins(line, "Error from server") || text::begins(
            line,
            "Unable to connect",
        ) {
            return at;
        }
        assert(all.skip(at as int).skip(1) =~= all.skip(at as int + 1));
        at += 1;
    }
    at
}

/// The one line of `kubectl`'s complaint that says what to fix. The client
/// logs a retry or two before it gives up, and puts a documentation link
/// after the reason, so neither the first line nor the last is the one.
pub fn kubectl_error(stderr: &str) -> (said: String)
    ensures
        said@ == complaint_line(stderr@),
{
    let held = telling_lines(stderr);
    if held.len() == 0 {
        return "kubectl failed".to_owned();
    }
    let login = first_login(&held);
    let reason = first_reason(&held);
    let at: usize = if login < held.len() {
        login
    } else if reason < held.len() {
        reason
    } else {
        0
    };
    let line = held[at].as_str();
    assert(chosen(telling(lines(stderr@))) == Some(line@));
    match text::after(line, "error:") {
        Some(rest) => text::trimmed(rest.as_str()),
        None => line.to_owned(),
    }
}

/// How one call of a program ended.
#[derive(Debug, PartialEq, Eq)]
pub enum Outcome {
    /// There is no such program on the path.
    NotFound,
    /// It was not started, for the reason given.
    NotRun(String),
    /// It was started and then could not be waited for, for the reason given.
    NotWaited(String),
    /// It was killed when its time was up.
    TimedOut,
    /// It ended well, and wrote this.
    Answered(String),
    /// It ended badly, and complained of this.
    Failed(String),
}

/// What the end of a call means: what it wrote, or what to tell.
pub open spec fn verdict_of(
    program: Seq<char>,
    seconds: nat,
    outcome: Outcome,
) -> Result<Seq<char>, Seq<char>> {
    match outcome {
        Outcome::NotFound => Err(program + " is not installed or not on PATH"@),
        Outcome::NotRun(reason) => Err(program + " could not be run: "@ + reason@),
        Outcome::NotWaited(reason) => Err(program + " could not be waited for: "@ + reason@),
        Outcome::TimedOut => Err(
            program + " did not answer in "@ + decimal(seconds)
                + "s \u{2014} a kubelogin waiting for a device-code login looks like this; run `kubelogin convert-kubeconfig -l azurecli`"@,
        ),
        Outcome::Answered(out) => Ok(out@),
        Outcome::Failed(complaint) => Err(complaint_line(complaint@)),
    }
}

/// What the end of a call of `program`, capped at so many seconds, means.
pub fn verdict(program: &str, seconds: u64, outcome: Outcome) -> (verdict: Result<String, String>)
    ensures
        match verdict {
            Ok(out) => verdict_of(program@, seconds as nat, outcome) == Ok::<Seq<char>, Seq<char>>(
                out@,
            ),
            Err(said) => verdict_of(program@, seconds as nat, outcome) == Err::<
                Seq<char>,
                Seq<char>,
            >(said@),
        },
{
    let program = program.to_owned();
    match outcome {
        Outcome::NotFound => Err(program.concat(" is not installed or not on PATH")),
        Outcome::NotRun(reason) => Err(
            program.concat(" could not be run: ").concat(reason.as_str()),
        ),
        Outcome::NotWaited(reason) => Err(
            program.concat(" could not be waited for: ").concat(reason.as_str()),
        ),
        Outcome::TimedOut => Err(
            program.concat(" did not answer in ").concat(
                text::print(seconds as u128).as_str(),
            ).concat(
                "s \u{2014} a kubelogin waiting for a device-code login looks like this; run `kubelogin convert-kubeconfig -l azurecli`",
            ),
        ),
        Outcome::Answered(out) => Ok(out),
        Outcome::Failed(complaint) => Err(kubectl_error(complaint.as_str())),
    }
}

/// What to do with a call that was started.
#[derive(Clone, Copy, Debug, PartialEq, Eq, Structural)]
pub enum Step {
    /// It is over: take what it wrote.
    Take,
    /// Its time is up: end it.
    Kill,
    /// Leave it alone for so many nanoseconds, and look again.
    Sleep(u128),
}

/// What to do with a call that was last seen at `now`: an end that was seen
/// counts even when it came past the deadline.
pub fn next_step(ended: bool, now: u128, deadline: u128) -> (step: Step)
    ensures
        step == (if ended {
            Step::Take
        } else if now >= deadline {
            Step::Kill
        } else {
            Step::Sleep(LOOK_AGAIN)
        }),
{
    if ended {
        Step::Take
    } else if now >= deadline {
        Step::Kill
    } else {
        Step::Sleep(LOOK_AGAIN)
    }
}

/// The real thing: `kubectl` on the path, with the context the scope names.
pub struct Kubectl;

/// The arguments that list a scope's pods: those of one namespace, or of
/// all.
pub open spec fn listing(scope: ScopeView) -> Seq<Seq<char>> {
    seq!["get"@, "pods"@, "-o"@, "json"@] + match scope.namespace {
        Some(namespace) => seq!["-n"@, namespace],
        None => seq!["--all-namespaces"@],
    }
}

/// What an answer to the listing holds: the scope's pods, or what to tell of
/// an answer that is not JSON.
pub open spec fn answer_of(
    cluster: Seq<char>,
    read: Result<JsonView, Seq<char>>,
) -> Result<Seq<PodView>, Seq<char>> {
    match read {
        Ok(listed) => Ok(pods_of(cluster, listed.at("items"@).items())),
        Err(said) => Err("kubectl answered with something other than JSON: "@ + said),
    }
}

impl Kubectl {
    /// `--context C --request-timeout=10s …`: what `kubectl` is called with.
    pub fn arguments(context: &str, arguments: &Vec<String>) -> (whole: Vec<String>)
        ensures
            texts(whole@) == seq!["--context"@, context@, "--request-timeout=10s"@] + texts(
                arguments@,
            ),
    {
        let mut whole: Vec<String> = Vec::new();
        whole.push("--context".to_owned());
        whole.push(context.to_owned());
        whole.push(REQUEST_TIMEOUT.to_owned());
        let ghost front = seq!["--context"@, context@, "--request-timeout=10s"@];
        let mut at: usize = 0;
        assert(texts(whole@) =~= front + texts(arguments@).take(0));
        while at < arguments.len()
            invariant
                at <= arguments@.len(),
                texts(whole@) == front + texts(arguments@).take(at as int),
            decreases arguments@.len() - at,
        {
            let ghost before = whole@;
            let ghost all = texts(arguments@);
            whole.push(arguments[at].clone());
            assert(texts(whole@) =~= texts(before).push(all[at as int]));
            assert(front + all.take(at as int + 1) =~= (front + all.take(at as int)).push(
                all[at as int],
            ));
            at += 1;
        }
        assert(texts(arguments@).take(at as int) =~= texts(arguments@));
        whole
    }

    /// The arguments that list a scope's pods.
    pub fn pods_arguments(scope: &Scope) -> (arguments: Vec<String>)
        ensures
            texts(arguments@) == listing(scope@),
    {
        let mut arguments: Vec<String> = Vec::new();
        arguments.push("get".to_owned());
        arguments.push("pods".to_owned());
        arguments.push("-o".to_owned());
        arguments.push("json".to_owned());
        match &scope.namespace {
            Some(namespace) => {
                arguments.push("-n".to_owned());
                arguments.push(namespace.clone());
            },
            None => arguments.push("--all-namespaces".to_owned()),
        }
        assert(texts(arguments@) =~= listing(scope@));
        arguments
    }

    /// The pods that an answer to the listing holds.
    pub fn pods(scope: &Scope, answer: &str) -> (pods: Result<Vec<Pod>, String>)
        ensures
            match pods {
                Ok(pods) => answer_of(scope@.cluster, json_read(answer@)) == Ok::<
                    Seq<PodView>,
                    Seq<char>,
                >(pod_views(pods@)),
                Err(said) => answer_of(scope@.cluster, json_read(answer@)) == Err::<
                    Seq<PodView>,
                    Seq<char>,
                >(said@),
            },
    {
        match json::parse(answer) {
            Ok(listed) => Ok(pods_listed(scope.cluster.as_str(), &listed)),
            Err(said) => Err(
                "kubectl answered with something other than JSON: ".to_owned().concat(
                    said.as_str(),
                ),
            ),
        }
    }
}

/// Lines are looked at one by one: one that says something is kept, trimmed,
/// and a blank one or one of the client's own log is not.
pub proof fn law_only_what_says_something_is_kept(
    a: Seq<Seq<char>>,
    b: Seq<Seq<char>>,
    one: Seq<char>,
)
    ensures
        telling(a + b) == telling(a) + telling(b),
        trim(one).len() == 0 ==> telling(seq![one]).len() == 0,
        is_log_line(trim(one)) ==> telling(seq![one]).len() == 0,
        trim(one).len() > 0 && !is_log_line(trim(one)) ==> telling(seq![one]) == seq![trim(one)],
    decreases b.len(),
{
    let alone = seq![one];
    assert(alone.drop_last() =~= Seq::empty());
    assert(telling(alone.drop_last()) =~= seq![]);
    if trim(one).len() > 0 && !is_log_line(trim(one)) {
        assert(telling(alone) =~= seq![trim(one)]);
    }
    if b.len() == 0 {
        assert(a + b =~= a);
        assert(telling(a) + telling(b) =~= telling(a));
    } else {
        law_only_what_says_something_is_kept(a, b.drop_last(), one);
        assert((a + b).drop_last() =~= a + b.drop_last());
        assert((a + b).last() == b.last());
        assert(telling(a + b) =~= telling(a) + telling(b));
    }
}

/// A line of the client's log is a letter for how bad it is, the four digits
/// of the day, and a blank before the rest.
pub proof fn law_a_log_line_begins_with_its_level_and_day(
    level: char,
    day: Seq<char>,
    rest: Seq<char>,
)
    requires
        day.len() == 4,
    ensures
        (level == 'E' || level == 'W' || level == 'I' || level == 'F') && (forall|at: int|
            0 <= at < 4 ==> '0' <= #[trigger] day[at] <= '9') ==> is_log_line(
            seq![level] + day + seq![' '] + rest,
        ),
        !(level == 'E' || level == 'W' || level == 'I' || level == 'F') ==> !is_log_line(
            seq![level] + day + seq![' '] + rest,
        ),
        !('0' <= day[0] <= '9') ==> !is_log_line(seq![level] + day + seq![' '] + rest),
{
    let line = seq![level] + day + seq![' '] + rest;
    assert(line[0] == level && line[5] == ' ');
    assert forall|at: int| 1 <= at < 5 implies #[trigger] line[at] == day[at - 1] by {}
    assert(line[1] == day[0]);
}

proof fn lemma_first_where(all: Seq<Seq<char>>, wanted: spec_fn(Seq<char>) -> bool, at: int)
    requires
        0 <= at <= all.len(),
        forall|k: int| 0 <= k < at ==> !wanted(#[trigger] all[k]),
        at < all.len() ==> wanted(all[at]),
    ensures
        first_where(all, wanted) == at,
    decreases at,
{
    if at > 0 {
        let rest = all.skip(1);
        assert(!wanted(all[0]));
        assert forall|k: int| 0 <= k < at - 1 implies !wanted(#[trigger] rest[k]) by {
            assert(rest[k] == all[k + 1]);
        }
        lemma_first_where(rest, wanted, at - 1);
    }
}

/// Of the lines that say something the one that names the login is told,
/// wherever it stands; else the first that gives a reason; else the first.
pub proof fn law_the_line_that_says_what_to_fix_is_told(all: Seq<Seq<char>>, at: int)
    requires
        0 <= at < all.len(),
    ensures
        has(all[at], "az login"@) && (forall|k: int|
            0 <= k < at ==> !text::has(#[trigger] all[k], "az login"@)) ==> chosen(all) == Some(all[at]),
        (forall|k: int| 0 <= k < all.len() ==> !text::has(#[trigger] all[k], "az login"@)) && (
        starts_with(all[at], "error:"@) || starts_with(all[at], "Error from server"@)
            || starts_with(all[at], "Unable to connect"@)) && (forall|k: int|
            0 <= k < at ==> !starts_with(#[trigger] all[k], "error:"@) && !starts_with(
                all[k],
                "Error from server"@,
            ) && !starts_with(all[k], "Unable to connect"@)) ==> chosen(all) == Some(all[at]),
        (forall|k: int|
            0 <= k < all.len() ==> !text::has(#[trigger] all[k], "az login"@) && !starts_with(
                all[k],
                "error:"@,
            ) && !starts_with(all[k], "Error from server"@) && !starts_with(
                all[k],
                "Unable to connect"@,
            )) ==> chosen(all) == Some(all[0]),
        chosen(Seq::empty()) is None,
{
    let login = |line: Seq<char>| names_login(line);
    let reason = |line: Seq<char>| gives_reason(line);
    if has(all[at], "az login"@) && forall|k: int|
        0 <= k < at ==> !text::has(#[trigger] all[k], "az login"@) {
        assert forall|k: int| 0 <= k < at implies !login(#[trigger] all[k]) by {
            assert(!text::has(all[k], "az login"@));
        }
        lemma_first_where(all, login, at);
    }
    if forall|k: int| 0 <= k < all.len() ==> !text::has(#[trigger] all[k], "az login"@) {
        assert forall|k: int| 0 <= k < all.len() implies !login(#[trigger] all[k]) by {
            assert(!text::has(all[k], "az login"@));
        }
        lemma_first_where(all, login, all.len() as int);
        if gives_reason(all[at]) && forall|k: int|
            0 <= k < at ==> !starts_with(#[trigger] all[k], "error:"@) && !starts_with(
                all[k],
                "Error from server"@,
            ) && !starts_with(all[k], "Unable to connect"@) {
            assert forall|k: int| 0 <= k < at implies !reason(#[trigger] all[k]) by {
                assert(!starts_with(all[k], "error:"@));
            }
            lemma_first_where(all, reason, at);
        }
        if forall|k: int| 0 <= k < all.len() ==> !gives_reason(#[trigger] all[k]) {
            assert forall|k: int| 0 <= k < all.len() implies !reason(#[trigger] all[k]) by {
                assert(!gives_reason(all[k]));
            }
            lemma_first_where(all, reason, all.len() as int);
        } else {
            let k = choose|k: int| 0 <= k < all.len() && gives_reason(#[trigger] all[k]);
            assert(gives_reason(all[k]));
        }
    } else {
        let k = choose|k: int| 0 <= k < all.len() && has(#[trigger] all[k], "az login"@);
        assert(has(all[k], "az login"@));
    }
}

/// What is told of a complaint is the chosen line without its `error:`, and
/// that `kubectl` failed where it said nothing.
pub proof fn law_a_complaint_is_told_without_its_prefix(
    stderr: Seq<char>,
    said: Seq<char>,
)
    ensures
        chosen(telling(lines(stderr))) is None ==> complaint_line(stderr) == "kubectl failed"@,
        chosen(telling(lines(stderr))) == Some("error:"@ + said) ==> complaint_line(stderr) == trim(
            said,
        ),
        chosen(telling(lines(stderr))) == Some(said) && !starts_with(said, "error:"@)
            ==> complaint_line(stderr) == said,
{
    assert(("error:"@ + said).take("error:"@.len() as int) =~= "error:"@);
    assert(("error:"@ + said).skip("error:"@.len() as int) =~= said);
}

/// What the end of a call means: what it wrote where it ended well, and else
/// words that begin with the program, or the line of its complaint.
pub proof fn law_the_end_of_a_call_is_told(
    program: Seq<char>,
    seconds: nat,
    said: String,
)
    ensures
        verdict_of(program, seconds, Outcome::Answered(said)) == Ok::<Seq<char>, Seq<char>>(said@),
        verdict_of(program, seconds, Outcome::Failed(said)) == Err::<Seq<char>, Seq<char>>(
            complaint_line(said@),
        ),
        verdict_of(program, seconds, Outcome::NotFound) == Err::<Seq<char>, Seq<char>>(
            program + " is not installed or not on PATH"@,
        ),
        verdict_of(program, seconds, Outcome::NotRun(said)) == Err::<Seq<char>, Seq<char>>(
            program + " could not be run: "@ + said@,
        ),
        verdict_of(program, seconds, Outcome::NotWaited(said)) == Err::<Seq<char>, Seq<char>>(
            program + " could not be waited for: "@ + said@,
        ),
        verdict_of(program, seconds, Outcome::TimedOut) is Err,
        starts_with(
            verdict_of(program, seconds, Outcome::TimedOut)->Err_0,
            program + " did not answer in "@ + decimal(seconds) + "s"@,
        ),
{
    reveal_strlit("s");
    reveal_strlit(
        "s \u{2014} a kubelogin waiting for a device-code login looks like this; run `kubelogin convert-kubeconfig -l azurecli`",
    );
    let front = program + " did not answer in "@ + decimal(seconds) + "s"@;
    let whole = verdict_of(program, seconds, Outcome::TimedOut)->Err_0;
    assert(whole.take(front.len() as int) =~= front);
}

/// A listing asks for the pods of the scope's namespace, as JSON, and for
/// those of every namespace where the scope is over all of them.
pub proof fn law_a_listing_asks_for_its_namespace(scope: ScopeView, namespace: Seq<char>)
    ensures
        listing(scope).take(4) == seq!["get"@, "pods"@, "-o"@, "json"@],
        scope.namespace == Some(namespace) ==> listing(scope).skip(4) == seq!["-n"@, namespace],
        scope.namespace is None ==> listing(scope).skip(4) == seq!["--all-namespaces"@],
{
    assert(listing(scope).take(4) =~= seq!["get"@, "pods"@, "-o"@, "json"@]);
    if let Some(held) = scope.namespace {
        assert(listing(scope).skip(4) =~= seq!["-n"@, held]);
    } else {
        assert(listing(scope).skip(4) =~= seq!["--all-namespaces"@]);
    }
}

/// An answer is the pods it lists, under the name of the cluster, or that it
/// is no JSON and why.
pub proof fn law_an_answer_is_the_pods_it_lists(
    cluster: Seq<char>,
    items: Seq<JsonView>,
    listed: JsonView,
    said: Seq<char>,
)
    ensures
        listed.at("items"@) == JsonView::Array(items) ==> answer_of(cluster, Ok(listed)) == Ok::<
            Seq<PodView>,
            Seq<char>,
        >(pods_of(cluster, items)),
        listed.at("items"@) is Null ==> answer_of(cluster, Ok(listed)) is Ok && answer_of(
            cluster,
            Ok(listed),
        )->Ok_0.len() == 0,
        answer_of(cluster, Err(said)) == Err::<Seq<PodView>, Seq<char>>(
            "kubectl answered with something other than JSON: "@ + said,
        ),
{
}

/// A call is capped at twenty seconds.
pub proof fn law_a_call_is_capped()
    ensures
        CALL_CAP == 20_000_000_000,
        LOOK_AGAIN < CALL_CAP,
{
}

/// A call that has ended is taken, late or not; one that has not is left alone
/// until its deadline, and killed from there.
pub proof fn law_a_call_is_killed_at_its_deadline(now: u128, deadline: u128, step: Step)
    ensures
        call_ensures(next_step, (true, now, deadline), step) ==> step == Step::Take,
        call_ensures(next_step, (false, now, deadline), step) && now >= deadline ==> step
            == Step::Kill,
        call_ensures(next_step, (false, now, deadline), step) && now < deadline ==> step
            == Step::Sleep(20_000_000),
{
}

/// Every call names its context, and how long the server may take, before
/// what it asks.
pub proof fn law_a_call_names_its_context(
    context: &str,
    arguments: &Vec<String>,
    whole: Vec<String>,
)
    requires
        call_ensures(Kubectl::arguments, (context, arguments), whole),
    ensures
        texts(whole@).len() == texts(arguments@).len() + 3,
        texts(whole@).take(2) == seq!["--context"@, context@],
        texts(whole@)[2] == "--request-timeout=10s"@,
        texts(whole@).skip(3) == texts(arguments@),
{
    assert(texts(whole@).take(2) =~= seq!["--context"@, context@]);
    assert(texts(whole@).skip(3) =~= texts(arguments@));
}

} // verus!
