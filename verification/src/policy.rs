//! The policy evaluator: allow, deny or ask, from the tool, the working
//! directory, the domains a network tool would reach, and what the user asked
//! to remember.

use vstd::prelude::*;
use crate::config::{PolicyConfig, PolicyView};
use crate::table::StrTable;
use crate::text::{
    after_last, before_first, chars_after_last, chars_of, concat2, concat3, copy_strings, debug_quote,
    debug_text, first_index, has_prefix, index_of_char, join_strings, joined, list_has, opt_text, same_text,
    starts_with_chars, string_of, strs, sub_chars,
};
use crate::wire::{JobRequest, PolicyState, PolicyUpdate};

verus! {

/// Three-way policy decision.
#[derive(Clone, Debug, PartialEq, Eq)]
pub enum PolicyDecision {
    /// Tool and all detected domains are allowed.
    Allow,
    /// Refused, with no chance of approval.
    Deny(String),
    /// Not allowed as it stands: the user is asked.
    NeedsApproval { reason: String, detected_domains: Vec<String> },
}

/// Mathematical content of a [`PolicyDecision`].
pub enum Verdict {
    Allow,
    Deny(Seq<char>),
    NeedsApproval { reason: Seq<char>, detected_domains: Seq<Seq<char>> },
}

impl View for PolicyDecision {
    type V = Verdict;

    open spec fn view(&self) -> Verdict {
        match self {
            PolicyDecision::Allow => Verdict::Allow,
            PolicyDecision::Deny(reason) => Verdict::Deny(reason@),
            PolicyDecision::NeedsApproval { reason, detected_domains } => Verdict::NeedsApproval {
                reason: reason@,
                detected_domains: strs(detected_domains@),
            },
        }
    }
}

// ── Lists ───────────────────────────────────────────────────────────────

/// The items of `list` that are not in `remove`, in order.
pub open spec fn without(list: Seq<Seq<char>>, remove: Seq<Seq<char>>) -> Seq<Seq<char>>
    decreases list.len(),
{
    if list.len() == 0 {
        list
    } else if remove.contains(list.last()) {
        without(list.drop_last(), remove)
    } else {
        without(list.drop_last(), remove).push(list.last())
    }
}

/// `list` with `x` at the end, unless it is there already.
pub open spec fn with_new(list: Seq<Seq<char>>, x: Seq<char>) -> Seq<Seq<char>> {
    if list.contains(x) {
        list
    } else {
        list.push(x)
    }
}

/// `list` with each item of `add` that it lacks put at the end, in order.
pub open spec fn with_all_new(list: Seq<Seq<char>>, add: Seq<Seq<char>>) -> Seq<Seq<char>>
    decreases add.len(),
{
    if add.len() == 0 {
        list
    } else {
        with_new(with_all_new(list, add.drop_last()), add.last())
    }
}

/// Remove first, then add what is missing.
pub open spec fn updated_list(list: Seq<Seq<char>>, add: Seq<Seq<char>>, remove: Seq<Seq<char>>) -> Seq<
    Seq<char>,
> {
    with_all_new(without(list, remove), add)
}

/// How often `x` occurs in `list`.
pub open spec fn occurrences(list: Seq<Seq<char>>, x: Seq<char>) -> nat
    decreases list.len(),
{
    if list.len() == 0 {
        0
    } else {
        occurrences(list.drop_last(), x) + (if list.last() == x { 1nat } else { 0nat })
    }
}

/// An item occurs in a list exactly if it is counted at least once.
pub proof fn lemma_occurrences(list: Seq<Seq<char>>, x: Seq<char>)
    ensures
        list.contains(x) <==> occurrences(list, x) >= 1,
    decreases list.len(),
{
    if list.len() > 0 {
        lemma_occurrences(list.drop_last(), x);
        if list.contains(x) {
            let i = choose|i: int| 0 <= i < list.len() && list[i] == x;
            if i < list.len() - 1 {
                assert(list.drop_last()[i] == x);
            }
        }
        if list.drop_last().contains(x) {
            let i = choose|i: int| 0 <= i < list.drop_last().len() && list.drop_last()[i] == x;
            assert(list[i] == x);
        }
        if list.last() == x {
            assert(list[list.len() - 1] == x);
        }
    }
}

/// Adding one item to a list in which it occurs at most once leaves it there
/// exactly once, and adding it a second time changes nothing.
pub proof fn lemma_add_once(list: Seq<Seq<char>>, x: Seq<char>)
    requires
        occurrences(list, x) <= 1,
    ensures
        occurrences(updated_list(list, seq![x], Seq::empty()), x) == 1,
        updated_list(updated_list(list, seq![x], Seq::empty()), seq![x], Seq::empty()) == updated_list(
            list,
            seq![x],
            Seq::empty(),
        ),
{
    let none = Seq::<Seq<char>>::empty();
    lemma_without_nothing(list);
    let once = updated_list(list, seq![x], none);
    assert(seq![x].drop_last() =~= none);
    assert(with_all_new(list, seq![x]) == with_new(with_all_new(list, none), x));
    assert(once == with_new(list, x));
    lemma_occurrences(list, x);
    if !list.contains(x) {
        assert(list.push(x).drop_last() =~= list);
    }
    lemma_occurrences(once, x);
    lemma_without_nothing(once);
    assert(with_all_new(once, seq![x]) == with_new(with_all_new(once, none), x));
}

/// Removing nothing leaves a list as it is.
pub proof fn lemma_without_nothing(list: Seq<Seq<char>>)
    ensures
        without(list, Seq::empty()) == list,
    decreases list.len(),
{
    if list.len() > 0 {
        lemma_without_nothing(list.drop_last());
        assert(list.drop_last().push(list.last()) =~= list);
    }
}

/// Removes from `list` the items of `remove`, then appends the items of `add`
/// that are not in it yet.
pub fn apply_list_update(list: &mut Vec<String>, add: &Vec<String>, remove: &Vec<String>)
    ensures
        strs(final(list)@) == updated_list(strs(old(list)@), strs(add@), strs(remove@)),
{
    let mut kept: Vec<String> = Vec::new();
    let mut i: usize = 0;
    while i < list.len()
        invariant
            i <= list.len(),
            list@ == old(list)@,
            strs(kept@) == without(strs(list@).take(i as int), strs(remove@)),
        decreases list.len() - i,
    {
        let ghost before = strs(kept@);
        assert(strs(list@).take(i + 1).drop_last() =~= strs(list@).take(i as int));
        assert(strs(list@).take(i + 1).last() == list@[i as int]@);
        if !list_has(remove, list[i].as_str()) {
            let item = list[i].clone();
            kept.push(item);
            assert(strs(kept@) =~= before.push(item@));
        }
        i += 1;
    }
    assert(strs(list@).take(list.len() as int) =~= strs(list@));
    let ghost base = strs(kept@);
    let mut j: usize = 0;
    while j < add.len()
        invariant
            j <= add.len(),
            strs(kept@) == with_all_new(base, strs(add@).take(j as int)),
        decreases add.len() - j,
    {
        let ghost before = strs(kept@);
        assert(strs(add@).take(j + 1).drop_last() =~= strs(add@).take(j as int));
        assert(strs(add@).take(j + 1).last() == add@[j as int]@);
        if !list_has(&kept, add[j].as_str()) {
            let item = add[j].clone();
            kept.push(item);
            assert(strs(kept@) =~= before.push(item@));
        }
        j += 1;
    }
    assert(strs(add@).take(add.len() as int) =~= strs(add@));
    *list = kept;
}

// ── Domains ─────────────────────────────────────────────────────────────

/// The host of a text that parses as an absolute URL with a host.
pub uninterp spec fn url_host(s: Seq<char>) -> Option<Seq<char>>;

/// Parses `s` as an absolute URL and returns its host. Trusted statement about
/// `url::Url::parse` followed by `Url::host_str`: whether there is a host, and
/// which, depends on the characters of `s` alone.
#[verifier::external_body]
fn try_extract_url_host(s: &str) -> (host: Option<String>)
    ensures
        opt_text(host) == url_host(s@),
{
    match url::Url::parse(s) {
        Ok(parsed) => parsed.host_str().map(|h| h.to_string()),
        Err(_) => None,
    }
}

/// Whether a tool of this base name is known to open network connections.
pub open spec fn is_network_tool(base: Seq<char>) -> bool {
    ||| base == "curl"@
    ||| base == "wget"@
    ||| base == "git"@
    ||| base == "ssh"@
    ||| base == "scp"@
    ||| base == "rsync"@
    ||| base == "sftp"@
    ||| base == "nc"@
    ||| base == "ncat"@
    ||| base == "nmap"@
    ||| base == "ping"@
    ||| base == "dig"@
    ||| base == "nslookup"@
    ||| base == "http"@
    ||| base == "https"@
    ||| base == "fetch"@
}

/// Whether a tool of this base name takes a bare host name as an argument.
pub open spec fn takes_bare_host(base: Seq<char>) -> bool {
    ||| base == "ssh"@
    ||| base == "ping"@
    ||| base == "dig"@
    ||| base == "nslookup"@
    ||| base == "nc"@
    ||| base == "ncat"@
}

/// The host in `user@host` or `user@host:path`, if it holds a dot.
pub open spec fn ssh_host(s: Seq<char>) -> Option<Seq<char>> {
    if s.contains('@') {
        let rest = s.subrange(first_index(s, '@') + 1, s.len() as int);
        let host = before_first(rest, ':');
        if host.len() > 0 && host.contains('.') {
            Some(host)
        } else {
            None
        }
    } else {
        None
    }
}

/// The domain that one argument names, given what URL parsing made of it.
pub open spec fn arg_host(base: Seq<char>, arg: Seq<char>, parsed: Option<Seq<char>>) -> Option<Seq<char>> {
    if arg.len() > 0 && arg[0] == '-' {
        None
    } else if parsed is Some {
        parsed
    } else if ssh_host(arg) is Some {
        ssh_host(arg)
    } else if takes_bare_host(base) && !arg.contains('/') && arg.contains('.') {
        Some(before_first(arg, ':'))
    } else {
        None
    }
}

/// The domains that the arguments name, each once, in order of first mention.
pub open spec fn hosts_of_args(base: Seq<char>, args: Seq<Seq<char>>) -> Seq<Seq<char>>
    decreases args.len(),
{
    if args.len() == 0 {
        Seq::empty()
    } else {
        let before = hosts_of_args(base, args.drop_last());
        match arg_host(base, args.last(), url_host(args.last())) {
            Some(h) => with_new(before, h),
            None => before,
        }
    }
}

/// The domains a job would reach: none unless the tool is a network tool.
pub open spec fn domains_of(tool: Seq<char>, args: Seq<Seq<char>>) -> Seq<Seq<char>> {
    let base = after_last(tool, '/');
    if is_network_tool(base) {
        hosts_of_args(base, args)
    } else {
        Seq::empty()
    }
}

/// No domain is listed twice.
pub proof fn lemma_domains_are_distinct(tool: Seq<char>, args: Seq<Seq<char>>)
    ensures
        domains_of(tool, args).no_duplicates(),
{
    lemma_hosts_are_distinct(after_last(tool, '/'), args);
}

/// No host is collected twice.
pub proof fn lemma_hosts_are_distinct(base: Seq<char>, args: Seq<Seq<char>>)
    ensures
        hosts_of_args(base, args).no_duplicates(),
    decreases args.len(),
{
    if args.len() > 0 {
        lemma_hosts_are_distinct(base, args.drop_last());
    }
}

fn network_tool(base: &str) -> (r: bool)
    ensures
        r == is_network_tool(base@),
{
    same_text(base, "curl") || same_text(base, "wget") || same_text(base, "git") || same_text(base, "ssh")
        || same_text(base, "scp") || same_text(base, "rsync") || same_text(base, "sftp") || same_text(
        base,
        "nc",
    ) || same_text(base, "ncat") || same_text(base, "nmap") || same_text(base, "ping") || same_text(
        base,
        "dig",
    ) || same_text(base, "nslookup") || same_text(base, "http") || same_text(base, "https") || same_text(
        base,
        "fetch",
    )
}

fn bare_host_tool(base: &str) -> (r: bool)
    ensures
        r == takes_bare_host(base@),
{
    same_text(base, "ssh") || same_text(base, "ping") || same_text(base, "dig") || same_text(
        base,
        "nslookup",
    ) || same_text(base, "nc") || same_text(base, "ncat")
}

/// The host of `user@host` or `user@host:path`, if it holds a dot.
pub fn try_extract_ssh_host(s: &str) -> (host: Option<String>)
    ensures
        opt_text(host) == ssh_host(s@),
{
    let chars = chars_of(s);
    let at = index_of_char(&chars, '@');
    if at < chars.len() {
        let rest = sub_chars(&chars, at + 1, chars.len());
        let colon = index_of_char(&rest, ':');
        let host = sub_chars(&rest, 0, colon);
        if host.len() > 0 && index_of_char(&host, '.') < host.len() {
            return Some(string_of(&host));
        }
    }
    None
}

/// The domain that one argument of a tool with base name `base` names, given
/// the host that URL parsing found in it.
pub fn host_of_arg(base: &str, arg: &str, parsed: Option<String>) -> (host: Option<String>)
    ensures
        opt_text(host) == arg_host(base@, arg@, opt_text(parsed)),
{
    let chars = chars_of(arg);
    if chars.len() > 0 && chars[0] == '-' {
        return None;
    }
    if parsed.is_some() {
        return parsed;
    }
    let ssh = try_extract_ssh_host(arg);
    if ssh.is_some() {
        return ssh;
    }
    if bare_host_tool(base) && !(index_of_char(&chars, '/') < chars.len()) && index_of_char(&chars, '.')
        < chars.len() {
        let colon = index_of_char(&chars, ':');
        let host = sub_chars(&chars, 0, colon);
        return Some(string_of(&host));
    }
    None
}

/// The domains that the arguments of a network tool name, by heuristics: each
/// once, in order of first mention; none for any other tool.
pub fn extract_domains(tool: &str, args: &[String]) -> (domains: Vec<String>)
    ensures
        strs(domains@) == domains_of(tool@, strs(args@)),
        strs(domains@).no_duplicates(),
{
    proof {
        lemma_domains_are_distinct(tool@, strs(args@));
    }
    let tool_chars = chars_of(tool);
    let base = string_of(&chars_after_last(&tool_chars, '/'));
    let mut domains: Vec<String> = Vec::new();
    if !network_tool(base.as_str()) {
        assert(strs(domains@) =~= Seq::<Seq<char>>::empty());
        return domains;
    }
    let mut i: usize = 0;
    assert(strs(domains@) =~= Seq::<Seq<char>>::empty());
    while i < args.len()
        invariant
            i <= args.len(),
            strs(domains@) == hosts_of_args(base@, strs(args@).take(i as int)),
        decreases args.len() - i,
    {
        let ghost before = strs(domains@);
        assert(strs(args@).take(i + 1).drop_last() =~= strs(args@).take(i as int));
        assert(strs(args@).take(i + 1).last() == args@[i as int]@);
        let parsed = try_extract_url_host(args[i].as_str());
        match host_of_arg(base.as_str(), args[i].as_str(), parsed) {
            Some(h) => {
                if !list_has(&domains, h.as_str()) {
                    domains.push(h);
                    assert(strs(domains@) =~= before.push(h@));
                }
            },
            None => {},
        }
        i += 1;
    }
    assert(strs(args@).take(args.len() as int) =~= strs(args@));
    domains
}

// ── Decisions ───────────────────────────────────────────────────────────

/// Whether a working directory lies below a denied prefix.
pub open spec fn denied_by_path(cwd: Seq<char>, denied_paths: Seq<Seq<char>>) -> bool {
    cwd.len() > 0 && exists|i: int| 0 <= i < denied_paths.len() && has_prefix(cwd, #[trigger] denied_paths[i])
}

/// The key under which a tool is remembered.
pub open spec fn tool_key(tool: Seq<char>) -> Seq<char> {
    "tool:"@ + tool
}

/// The key under which a domain is remembered.
pub open spec fn domain_key(domain: Seq<char>) -> Seq<char> {
    "domain:"@ + domain
}

/// The detected domains that are neither allowed nor remembered, in order.
pub open spec fn unapproved(detected: Seq<Seq<char>>, allowed: Seq<Seq<char>>, remembered: Seq<Seq<char>>) -> Seq<
    Seq<char>,
>
    decreases detected.len(),
{
    if detected.len() == 0 {
        detected
    } else {
        let before = unapproved(detected.drop_last(), allowed, remembered);
        let d = detected.last();
        if !allowed.contains(d) && !remembered.contains(domain_key(d)) {
            before.push(d)
        } else {
            before
        }
    }
}

/// The decision for a request, given the detected domains and the quoted
/// forms of tool and working directory that the reasons for a refusal show.
/// The reason for asking names the tool as it is.
pub open spec fn verdict_with(
    cfg: PolicyView,
    remembered: Seq<Seq<char>>,
    tool: Seq<char>,
    cwd: Seq<char>,
    detected: Seq<Seq<char>>,
    tool_shown: Seq<char>,
    cwd_shown: Seq<char>,
) -> Verdict {
    if cfg.denied_tools.contains(tool) {
        Verdict::Deny("tool "@ + tool_shown + " is in the deny list"@)
    } else if denied_by_path(cwd, cfg.denied_paths) {
        Verdict::Deny("working directory "@ + cwd_shown + " is denied by policy"@)
    } else if !(cfg.allowed_tools.len() == 0 || cfg.allowed_tools.contains(tool) || remembered.contains(
        tool_key(tool),
    )) {
        Verdict::NeedsApproval {
            reason: "tool "@ + tool + " is not in the allow list"@,
            detected_domains: detected,
        }
    } else if detected.len() > 0 && cfg.allowed_domains.len() > 0 && unapproved(
        detected,
        cfg.allowed_domains,
        remembered,
    ).len() > 0 {
        Verdict::NeedsApproval {
            reason: "domain(s) "@ + joined(unapproved(detected, cfg.allowed_domains, remembered), ", "@)
                + " not in allowed domains"@,
            detected_domains: detected,
        }
    } else {
        Verdict::Allow
    }
}

/// The decision for a request.
pub open spec fn verdict(cfg: PolicyView, remembered: Seq<Seq<char>>, tool: Seq<char>, cwd: Seq<char>, args: Seq<
    Seq<char>,
>) -> Verdict {
    verdict_with(cfg, remembered, tool, cwd, domains_of(tool, args), debug_text(tool), debug_text(cwd))
}

/// What is remembered after an approval of `tool` with `domains`.
pub open spec fn remembered_after(remembered: Seq<Seq<char>>, tool: Seq<char>, domains: Seq<Seq<char>>) -> Seq<
    Seq<char>,
> {
    with_all_new(with_new(remembered, tool_key(tool)), domains.map_values(|d: Seq<char>| domain_key(d)))
}

/// A denied tool is refused whatever else holds, and a tool that must be
/// approved is never let through.
pub proof fn lemma_deny_wins(
    cfg: PolicyView,
    remembered: Seq<Seq<char>>,
    tool: Seq<char>,
    cwd: Seq<char>,
    args: Seq<Seq<char>>,
)
    ensures
        cfg.denied_tools.contains(tool) || denied_by_path(cwd, cfg.denied_paths) <==> verdict(
            cfg,
            remembered,
            tool,
            cwd,
            args,
        ) is Deny,
        verdict(cfg, remembered, tool, cwd, args) is Allow ==> cfg.allowed_tools.len() == 0
            || cfg.allowed_tools.contains(tool) || remembered.contains(tool_key(tool)),
{
}

fn path_denied(cwd: &str, denied_paths: &Vec<String>) -> (r: bool)
    ensures
        r == denied_by_path(cwd@, strs(denied_paths@)),
{
    let cwd_chars = chars_of(cwd);
    if cwd_chars.len() == 0 {
        return false;
    }
    let mut i: usize = 0;
    while i < denied_paths.len()
        invariant
            i <= denied_paths.len(),
            cwd_chars@ == cwd@,
            cwd@.len() > 0,
            forall|k: int| 0 <= k < i ==> !has_prefix(cwd@, #[trigger] strs(denied_paths@)[k]),
        decreases denied_paths.len() - i,
    {
        let p = chars_of(denied_paths[i].as_str());
        assert(strs(denied_paths@)[i as int] == p@);
        if starts_with_chars(&cwd_chars, &p) {
            assert(has_prefix(cwd@, strs(denied_paths@)[i as int]));
            return true;
        }
        i += 1;
    }
    false
}

fn unapproved_domains(detected: &Vec<String>, allowed: &Vec<String>, remembered: &Vec<String>) -> (out: Vec<
    String,
>)
    ensures
        strs(out@) == unapproved(strs(detected@), strs(allowed@), strs(remembered@)),
{
    let mut out: Vec<String> = Vec::new();
    let mut i: usize = 0;
    assert(strs(out@) =~= Seq::<Seq<char>>::empty());
    while i < detected.len()
        invariant
            i <= detected.len(),
            strs(out@) == unapproved(strs(detected@).take(i as int), strs(allowed@), strs(remembered@)),
        decreases detected.len() - i,
    {
        let ghost before = strs(out@);
        assert(strs(detected@).take(i + 1).drop_last() =~= strs(detected@).take(i as int));
        assert(strs(detected@).take(i + 1).last() == detected@[i as int]@);
        let key = concat2("domain:", detected[i].as_str());
        if !list_has(allowed, detected[i].as_str()) && !list_has(remembered, key.as_str()) {
            let item = detected[i].clone();
            out.push(item);
            assert(strs(out@) =~= before.push(item@));
        }
        i += 1;
    }
    assert(strs(detected@).take(detected.len() as int) =~= strs(detected@));
    out
}

/// Decides on a request from the policy, what the caller asked to remember,
/// the domains detected in the arguments, and the quoted forms of tool and
/// working directory that the reasons for a refusal show.
pub fn decide(
    config: &PolicyConfig,
    remembered: &Vec<String>,
    tool: &str,
    cwd: &str,
    detected_domains: Vec<String>,
    tool_shown: &str,
    cwd_shown: &str,
) -> (decision: PolicyDecision)
    ensures
        decision@ == verdict_with(
            config@,
            strs(remembered@),
            tool@,
            cwd@,
            strs(detected_domains@),
            tool_shown@,
            cwd_shown@,
        ),
{
    if list_has(&config.denied_tools, tool) {
        return PolicyDecision::Deny(concat3("tool ", tool_shown, " is in the deny list"));
    }
    if path_denied(cwd, &config.denied_paths) {
        return PolicyDecision::Deny(concat3("working directory ", cwd_shown, " is denied by policy"));
    }
    let key = concat2("tool:", tool);
    let tool_allowed = config.allowed_tools.len() == 0 || list_has(&config.allowed_tools, tool) || list_has(
        remembered,
        key.as_str(),
    );
    if !tool_allowed {
        return PolicyDecision::NeedsApproval {
            reason: concat3("tool ", tool, " is not in the allow list"),
            detected_domains,
        };
    }
    if detected_domains.len() > 0 && config.allowed_domains.len() > 0 {
        let missing = unapproved_domains(&detected_domains, &config.allowed_domains, remembered);
        if missing.len() > 0 {
            let list = join_strings(&missing, ", ");
            return PolicyDecision::NeedsApproval {
                reason: concat3("domain(s) ", list.as_str(), " not in allowed domains"),
                detected_domains,
            };
        }
    }
    PolicyDecision::Allow
}

/// Evaluates job requests against the policy and the approvals that callers
/// asked to remember.
pub struct PolicyChecker {
    config: PolicyConfig,
    session_approvals: StrTable<Vec<String>>,
}

impl PolicyChecker {
    /// The current policy.
    pub closed spec fn config(&self) -> PolicyView {
        self.config@
    }

    /// The keys a caller asked to remember, in the order they were added.
    pub closed spec fn remembered(&self, caller: Seq<char>) -> Seq<Seq<char>> {
        if self.session_approvals.map().contains_key(caller) {
            strs(self.session_approvals.map()[caller]@)
        } else {
            Seq::empty()
        }
    }

    /// The checker's invariant.
    pub closed spec fn wf(&self) -> bool {
        self.session_approvals.wf()
    }

    /// A checker with a copy of `config` and nothing remembered.
    pub fn new(config: &PolicyConfig) -> (p: PolicyChecker)
        ensures
            p.wf(),
            p.config() == config@,
            forall|c: Seq<char>| p.remembered(c) == Seq::<Seq<char>>::empty(),
    {
        PolicyChecker { config: config.duplicate(), session_approvals: StrTable::new() }
    }

    /// Evaluates a job request for a caller.
    pub fn check(&self, req: &JobRequest, caller_uid: &str) -> (decision: PolicyDecision)
        requires
            self.wf(),
        ensures
            decision@ == verdict(self.config(), self.remembered(caller_uid@), req@.tool, req@.cwd, req@.args),
    {
        let detected = extract_domains(req.tool.as_str(), req.args.as_slice());
        let tool_shown = debug_quote(req.tool.as_str());
        let cwd_shown = debug_quote(req.cwd.as_str());
        let nothing: Vec<String> = Vec::new();
        assert(strs(nothing@) =~= Seq::<Seq<char>>::empty());
        let remembered = match self.session_approvals.find(caller_uid) {
            Some(i) => self.session_approvals.value_at(i),
            None => &nothing,
        };
        decide(
            &self.config,
            remembered,
            req.tool.as_str(),
            req.cwd.as_str(),
            detected,
            tool_shown.as_str(),
            cwd_shown.as_str(),
        )
    }

    /// Remembers an approval for a caller: the tool and each of the domains.
    pub fn remember_approval(&mut self, caller_uid: &str, tool: &str, domains: &[String])
        requires
            old(self).wf(),
        ensures
            final(self).wf(),
            final(self).config() == old(self).config(),
            final(self).remembered(caller_uid@) == remembered_after(
                old(self).remembered(caller_uid@),
                tool@,
                strs(domains@),
            ),
            forall|c: Seq<char>| c != caller_uid@ ==> final(self).remembered(c) == old(self).remembered(c),
    {
        let mut set: Vec<String> = match self.session_approvals.remove(caller_uid) {
            Some(v) => v,
            None => Vec::new(),
        };
        assert(strs(set@) =~= old(self).remembered(caller_uid@));
        let key = concat2("tool:", tool);
        if !list_has(&set, key.as_str()) {
            let ghost before = strs(set@);
            set.push(key);
            assert(strs(set@) =~= before.push(key@));
        }
        let ghost base = strs(set@);
        let ghost keys = strs(domains@).map_values(|d: Seq<char>| domain_key(d));
        let mut i: usize = 0;
        while i < domains.len()
            invariant
                i <= domains.len(),
                keys == strs(domains@).map_values(|d: Seq<char>| domain_key(d)),
                strs(set@) == with_all_new(base, keys.take(i as int)),
            decreases domains.len() - i,
        {
            let ghost before = strs(set@);
            assert(keys.take(i + 1).drop_last() =~= keys.take(i as int));
            assert(keys.take(i + 1).last() == domain_key(domains@[i as int]@));
            let key = concat2("domain:", domains[i].as_str());
            if !list_has(&set, key.as_str()) {
                set.push(key);
                assert(strs(set@) =~= before.push(key@));
            }
            i += 1;
        }
        assert(keys.take(domains.len() as int) =~= keys);
        self.session_approvals.insert(caller_uid.to_string(), set);
    }

    /// The current policy, for a controller.
    pub fn get_state(&self) -> (state: PolicyState)
        ensures
            strs(state.allowed_tools@) == self.config().allowed_tools,
            strs(state.denied_tools@) == self.config().denied_tools,
            strs(state.denied_paths@) == self.config().denied_paths,
            strs(state.allowed_domains@) == self.config().allowed_domains,
            state.approval_timeout_secs == self.config().approval_timeout_secs,
    {
        PolicyState {
            allowed_tools: copy_strings(&self.config.allowed_tools),
            denied_tools: copy_strings(&self.config.denied_tools),
            denied_paths: copy_strings(&self.config.denied_paths),
            allowed_domains: copy_strings(&self.config.allowed_domains),
            approval_timeout_secs: self.config.approval_timeout_secs,
        }
    }

    /// Applies an incremental update: on each list the removals, then the
    /// additions; the timeout is replaced if the update names one.
    pub fn apply_update(&mut self, update: &PolicyUpdate)
        requires
            old(self).wf(),
        ensures
            final(self).wf(),
            final(self).config() == policy_after(old(self).config(), *update),
            forall|c: Seq<char>| final(self).remembered(c) == old(self).remembered(c),
    {
        apply_list_update(&mut self.config.allowed_tools, &update.add_allowed_tools, &update.remove_allowed_tools);
        apply_list_update(&mut self.config.denied_tools, &update.add_denied_tools, &update.remove_denied_tools);
        apply_list_update(&mut self.config.denied_paths, &update.add_denied_paths, &update.remove_denied_paths);
        apply_list_update(
            &mut self.config.allowed_domains,
            &update.add_allowed_domains,
            &update.remove_allowed_domains,
        );
        if update.approval_timeout_secs > 0 {
            self.config.approval_timeout_secs = update.approval_timeout_secs;
        }
    }

    /// A copy of the current policy, for writing it back to the configuration.
    pub fn config_snapshot(&self) -> (c: PolicyConfig)
        ensures
            c@ == self.config(),
    {
        self.config.duplicate()
    }

    /// Seconds to wait for an approval.
    pub fn approval_timeout_secs(&self) -> (secs: u64)
        ensures
            secs == self.config().approval_timeout_secs,
    {
        self.config.approval_timeout_secs
    }
}

/// The policy after an update.
pub open spec fn policy_after(cfg: PolicyView, update: PolicyUpdate) -> PolicyView {
    PolicyView {
        allowed_tools: updated_list(
            cfg.allowed_tools,
            strs(update.add_allowed_tools@),
            strs(update.remove_allowed_tools@),
        ),
        denied_tools: updated_list(
            cfg.denied_tools,
            strs(update.add_denied_tools@),
            strs(update.remove_denied_tools@),
        ),
        denied_paths: updated_list(
            cfg.denied_paths,
            strs(update.add_denied_paths@),
            strs(update.remove_denied_paths@),
        ),
        allowed_domains: updated_list(
            cfg.allowed_domains,
            strs(update.add_allowed_domains@),
            strs(update.remove_allowed_domains@),
        ),
        approval_timeout_secs: if update.approval_timeout_secs > 0 {
            update.approval_timeout_secs
        } else {
            cfg.approval_timeout_secs
        },
    }
}

} // verus!
