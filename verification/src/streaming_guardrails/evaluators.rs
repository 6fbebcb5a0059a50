//! What guardrails decide about a window.

use vstd::prelude::*;
use vstd::string::*;

verus! {

/// What happens when a guardrail cannot decide.
#[derive(Debug, Clone, Copy, PartialEq, Eq, Structural)]
pub enum FailureMode {
    FailClosed,
    FailOpen,
}

/// What a guardrail decides about a window that does not pass.
#[derive(Debug)]
pub enum StreamingGuardrailOutcome {
    /// The window is blocked, for a reason.
    Blocked(String),
}

/// What a guardrail says about a window: nothing against it, a reason to block it, or an error.
pub type Evaluation = Result<Option<StreamingGuardrailOutcome>, String>;

/// Whether a guardrail blocks a window: it says so, or it fails and is to fail closed.
pub open spec fn blocks(evaluation: Evaluation, failure_mode: FailureMode) -> bool {
    match evaluation {
        Ok(Some(StreamingGuardrailOutcome::Blocked(_))) => true,
        Ok(None) => false,
        Err(_) => failure_mode == FailureMode::FailClosed,
    }
}

/// [`blocks`], computed.
pub fn evaluation_blocks(evaluation: &Evaluation, failure_mode: FailureMode) -> (r: bool)
    ensures
        r == blocks(*evaluation, failure_mode),
{
    match evaluation {
        Ok(Some(StreamingGuardrailOutcome::Blocked(_))) => true,
        Ok(None) => false,
        Err(_) => match failure_mode {
            FailureMode::FailClosed => true,
            FailureMode::FailOpen => false,
        },
    }
}

/// Whether a window is blocked, given what each guardrail says about it and how it is to fail.
pub open spec fn any_blocks(evaluations: Seq<(Evaluation, FailureMode)>) -> bool {
    exists|i: int|
        0 <= i < evaluations.len() && blocks((#[trigger] evaluations[i]).0, evaluations[i].1)
}

/// What follows what one guardrail says about a window.
#[derive(Debug, Clone, Copy, PartialEq, Eq, Structural)]
pub enum EvaluatorStep {
    /// The window is blocked; no other guardrail is asked.
    Blocked,
    /// The guardrail at this place is asked next.
    Ask(usize),
    /// All have been asked, and the window passes.
    Passed,
}

/// What follows what the guardrail at the place `at`, of `count`, says about a window.
pub open spec fn step_after(
    at: int,
    count: int,
    evaluation: Evaluation,
    failure_mode: FailureMode,
) -> EvaluatorStep {
    if blocks(evaluation, failure_mode) {
        EvaluatorStep::Blocked
    } else if at + 1 < count {
        EvaluatorStep::Ask((at + 1) as usize)
    } else {
        EvaluatorStep::Passed
    }
}

/// What follows what the guardrail at the place `at`, of `count`, says about a window: it is
/// blocked, or the next one is asked, if there is one.
pub fn evaluator_step(
    at: usize,
    count: usize,
    evaluation: &Evaluation,
    failure_mode: FailureMode,
) -> (r: EvaluatorStep)
    requires
        at < count,
    ensures
        r == step_after(at as int, count as int, *evaluation, failure_mode),
{
    if evaluation_blocks(evaluation, failure_mode) {
        EvaluatorStep::Blocked
    } else if at + 1 < count {
        EvaluatorStep::Ask(at + 1)
    } else {
        EvaluatorStep::Passed
    }
}

/// Whether a window is blocked, given what each guardrail says about it and how it is to fail.
pub fn evaluate_window(evaluations: &Vec<(Evaluation, FailureMode)>) -> (r: bool)
    ensures
        r == any_blocks(evaluations@),
{
    let count: usize = evaluations.len();
    let mut at: usize = 0;
    while at < count
        invariant
            count == evaluations@.len(),
            at <= count,
            forall|j: int|
                0 <= j < at ==> !blocks((#[trigger] evaluations@[j]).0, evaluations@[j].1),
        decreases count - at,
    {
        match evaluator_step(at, count, &evaluations[at].0, evaluations[at].1) {
            EvaluatorStep::Blocked => {
                assert(blocks(evaluations@[at as int].0, evaluations@[at as int].1));
                return true;
            },
            EvaluatorStep::Ask(next) => {
                at = next;
            },
            EvaluatorStep::Passed => {
                at = count;
            },
        }
    }
    false
}

/// The guardrails are asked in order, each once, and only up to the first that blocks: `asked` are
/// those that are asked, one after the other, as long as each step says to ask the next one, out
/// of all that there are. The last step says what all of them together would say.
pub proof fn law_evaluators_are_asked_in_order(
    all: Seq<(Evaluation, FailureMode)>,
    asked: Seq<EvaluatorStep>,
)
    requires
        all.len() <= usize::MAX,
        1 <= asked.len() <= all.len(),
        forall|i: int|
            0 <= i < asked.len() ==> #[trigger] asked[i] == step_after(
                i,
                all.len() as int,
                all[i].0,
                all[i].1,
            ),
        forall|i: int| 0 <= i < asked.len() - 1 ==> #[trigger] asked[i] is Ask,
        !(asked.last() is Ask),
    ensures
        forall|i: int| 0 <= i < asked.len() - 1 ==> #[trigger] asked[i] == EvaluatorStep::Ask(
            (i + 1) as usize,
        ),
        forall|i: int| 0 <= i < asked.len() - 1 ==> !blocks((#[trigger] all[i]).0, all[i].1),
        asked.last() is Blocked <==> any_blocks(all),
        asked.last() is Passed ==> asked.len() == all.len(),
{
    let n = asked.len() - 1;
    assert forall|i: int| 0 <= i < n implies !blocks((#[trigger] all[i]).0, all[i].1) by {
        assert(asked[i] is Ask);
    }
    assert(asked[n] == step_after(n, all.len() as int, all[n].0, all[n].1));
    if asked.last() is Blocked {
        assert(blocks(all[n].0, all[n].1));
    }
}

/// What is done with a text that matches a rule.
#[derive(Debug, Clone, Copy, PartialEq, Eq, Structural)]
pub enum Action {
    Mask,
    Reject,
}

/// A kind of personal data that can be recognized.
#[derive(Debug, Clone, Copy, PartialEq, Eq, Structural)]
pub enum Builtin {
    Ssn,
    CreditCard,
    PhoneNumber,
    Email,
    CaSin,
}

/// A compiled regular expression.
#[verifier::external_type_specification]
#[verifier::external_body]
pub struct ExRegex(regex::Regex);

/// Whether a regular expression matches somewhere in a text.
pub uninterp spec fn regex_matches(pattern: regex::Regex, text: Seq<char>) -> bool;

/// Searches a text (`Regex::is_match`).
///
/// Trusted: the answer depends on the expression and the text alone.
#[verifier::external_body]
fn is_match(pattern: &regex::Regex, text: &str) -> (r: bool)
    ensures
        r == regex_matches(*pattern, text@),
{
    pattern.is_match(text)
}

/// A rule about a text.
#[derive(Debug)]
pub enum RegexRule {
    /// It holds personal data of a kind.
    Builtin { builtin: Builtin },
    /// It matches a regular expression.
    Regex { pattern: regex::Regex },
}

/// Rules about a text, and what is done where one of them applies.
#[derive(Debug)]
pub struct RegexRules {
    pub action: Action,
    pub rules: Vec<RegexRule>,
}

/// Whether a rule applies to a text in which personal data of the kinds `recognized` was found.
pub open spec fn rule_applies(rule: RegexRule, text: Seq<char>, recognized: Seq<Builtin>) -> bool {
    match rule {
        RegexRule::Builtin { builtin } => recognized.contains(builtin),
        RegexRule::Regex { pattern } => regex_matches(pattern, text),
    }
}

/// Whether rules reject a text. Rules that mask do not: the held frames cannot be rewritten.
pub open spec fn rules_reject(rules: RegexRules, text: Seq<char>, recognized: Seq<Builtin>) -> bool {
    rules.action == Action::Reject && exists|i: int|
        0 <= i < rules.rules@.len() && rule_applies(
            #[trigger] rules.rules@[i],
            text,
            recognized,
        )
}

fn recognizes(recognized: &Vec<Builtin>, builtin: Builtin) -> (r: bool)
    ensures
        r == recognized@.contains(builtin),
{
    let mut i: usize = 0;
    while i < recognized.len()
        invariant
            i <= recognized@.len(),
            forall|j: int| 0 <= j < i ==> recognized@[j] != builtin,
        decreases recognized.len() - i,
    {
        if recognized[i] == builtin {
            assert(recognized@[i as int] == builtin);
            return true;
        }
        i += 1;
    }
    false
}

/// A guardrail that applies rules to each window.
#[derive(Debug)]
pub struct RegexEvaluator {
    pub rules: RegexRules,
}

impl RegexEvaluator {
    /// What the rules say about a window in which personal data of the kinds `recognized` was
    /// found.
    pub fn evaluate(&self, window: &str, recognized: &Vec<Builtin>) -> (r: Option<
        StreamingGuardrailOutcome,
    >)
        ensures
            rules_reject(self.rules, window@, recognized@) ==> (r matches Some(
                StreamingGuardrailOutcome::Blocked(reason),
            ) && reason@ == "regex guardrail blocked content"@),
            !rules_reject(self.rules, window@, recognized@) ==> r is None,
    {
        let mut i: usize = 0;
        while i < self.rules.rules.len()
            invariant
                i <= self.rules.rules@.len(),
                self.rules.action == Action::Reject ==> forall|j: int|
                    0 <= j < i ==> !rule_applies(
                        #[trigger] self.rules.rules@[j],
                        window@,
                        recognized@,
                    ),
            decreases self.rules.rules.len() - i,
        {
            if self.rules.action == Action::Reject {
                let matched = match &self.rules.rules[i] {
                    RegexRule::Builtin { builtin } => recognizes(recognized, *builtin),
                    RegexRule::Regex { pattern } => is_match(pattern, window),
                };
                if matched {
                    assert(rule_applies(self.rules.rules@[i as int], window@, recognized@));
                    return Some(
                        StreamingGuardrailOutcome::Blocked(
                            "regex guardrail blocked content".to_owned(),
                        ),
                    );
                }
            }
            i += 1;
        }
        None
    }
}

/// What a webhook answers.
#[derive(Debug)]
pub enum ResponseAction {
    Pass,
    Mask,
    Reject { reason: Option<String> },
}

/// A guardrail that asks a webhook.
#[derive(Debug, Clone, Copy, PartialEq, Eq, Structural)]
pub struct WebhookEvaluator {
    pub failure_mode: FailureMode,
}

impl WebhookEvaluator {
    /// What the answer of the webhook says about the window. A mask is not applied: the held
    /// frames cannot be rewritten.
    pub fn outcome(&self, action: ResponseAction) -> (r: Option<StreamingGuardrailOutcome>)
        ensures
            match action {
                ResponseAction::Reject { reason } => r matches Some(
                    StreamingGuardrailOutcome::Blocked(text),
                ) && text@ == "webhook rejected response: "@ + match reason {
                    Some(reason) => reason@,
                    None => Seq::empty(),
                },
                _ => r is None,
            },
            match webhook_reason(action) {
                Some(why) => r matches Some(StreamingGuardrailOutcome::Blocked(text)) && text@
                    == why,
                None => r is None,
            },
    {
        match action {
            ResponseAction::Reject { reason } => {
                let mut text = "webhook rejected response: ".to_owned();
                if let Some(reason) = reason {
                    text.append(reason.as_str());
                }
                Some(StreamingGuardrailOutcome::Blocked(text))
            },
            _ => None,
        }
    }
}

/// A guardrail that asks a service of a cloud.
#[derive(Debug, Clone, Copy, PartialEq, Eq, Structural)]
pub enum CloudService {
    Bedrock,
    GoogleModelArmor,
    AzureContentSafety,
}

/// A guardrail that asks a service of a cloud.
#[derive(Debug, Clone, Copy, PartialEq, Eq, Structural)]
pub struct CloudEvaluator {
    pub service: CloudService,
    /// Whether the service is configured to look at texts.
    pub enabled: bool,
    /// The severity from which on a text is blocked, where the service reports one.
    pub severity_threshold: Option<u32>,
}

/// The severity from which on a text is blocked where nothing is configured.
pub const DEFAULT_SEVERITY_THRESHOLD: u32 = 2;

/// The reason that is given for a window that a service blocks.
pub open spec fn blocked_by(service: CloudService) -> Seq<char> {
    match service {
        CloudService::Bedrock => "Bedrock guardrail blocked streaming response content"@,
        CloudService::GoogleModelArmor => "Google Model Armor blocked streaming response content"@,
        CloudService::AzureContentSafety =>
            "Azure Content Safety blocked streaming response content"@,
    }
}

impl CloudEvaluator {
    /// Whether the service is asked about a window. It is not asked about an empty one.
    pub fn asks(&self, window: &str) -> (r: bool)
        ensures
            r == (self.enabled && window@.len() > 0),
            r == self.is_asked(window@),
    {
        self.enabled && !window.is_empty()
    }

    /// The severity from which on a text is blocked.
    pub fn threshold(&self) -> (r: u32)
        ensures
            r == match self.severity_threshold {
                Some(t) => t,
                None => DEFAULT_SEVERITY_THRESHOLD,
            },
            r == self.blocks_from(),
    {
        match self.severity_threshold {
            Some(t) => t,
            None => DEFAULT_SEVERITY_THRESHOLD,
        }
    }

    /// What the answer of the service says about the window. `is_blocked` is the answer where
    /// the service was asked.
    pub fn outcome(&self, is_blocked: bool) -> (r: Option<StreamingGuardrailOutcome>)
        ensures
            is_blocked ==> (r matches Some(StreamingGuardrailOutcome::Blocked(reason)) && reason@
                == blocked_by(self.service)),
            !is_blocked ==> r is None,
    {
        if !is_blocked {
            return None;
        }
        let reason = match self.service {
            CloudService::Bedrock => "Bedrock guardrail blocked streaming response content",
            CloudService::GoogleModelArmor => {
                "Google Model Armor blocked streaming response content"
            },
            CloudService::AzureContentSafety => {
                "Azure Content Safety blocked streaming response content"
            },
        };
        Some(StreamingGuardrailOutcome::Blocked(reason.to_owned()))
    }
}

/// The configuration of a guardrail.
#[derive(Debug)]
pub enum ResponseGuardKind {
    Regex(RegexRules),
    Webhook { failure_mode: FailureMode },
    BedrockGuardrails,
    GoogleModelArmor,
    /// Texts are looked at where `analyze_text` is given; it may hold a severity.
    AzureContentSafety { analyze_text: Option<Option<u32>> },
}

/// A guardrail on responses.
#[derive(Debug)]
pub struct ResponseGuard {
    pub kind: ResponseGuardKind,
}

/// A guardrail that looks at windows.
#[derive(Debug)]
pub enum StreamingEvaluator {
    Regex(RegexEvaluator),
    Webhook(WebhookEvaluator),
    Cloud(CloudEvaluator),
}

/// The guardrail that a configuration describes.
pub open spec fn evaluator_for(guard: ResponseGuard) -> StreamingEvaluator {
    match guard.kind {
        ResponseGuardKind::Regex(rules) => StreamingEvaluator::Regex(RegexEvaluator { rules }),
        ResponseGuardKind::Webhook { failure_mode } => StreamingEvaluator::Webhook(
            WebhookEvaluator { failure_mode },
        ),
        ResponseGuardKind::BedrockGuardrails => StreamingEvaluator::Cloud(
            CloudEvaluator {
                service: CloudService::Bedrock,
                enabled: true,
                severity_threshold: None,
            },
        ),
        ResponseGuardKind::GoogleModelArmor => StreamingEvaluator::Cloud(
            CloudEvaluator {
                service: CloudService::GoogleModelArmor,
                enabled: true,
                severity_threshold: None,
            },
        ),
        ResponseGuardKind::AzureContentSafety { analyze_text } => StreamingEvaluator::Cloud(
            CloudEvaluator {
                service: CloudService::AzureContentSafety,
                enabled: analyze_text is Some,
                severity_threshold: match analyze_text {
                    Some(threshold) => threshold,
                    None => None,
                },
            },
        ),
    }
}

/// Makes the guardrail that a configuration describes.
pub fn make_evaluator(guard: ResponseGuard) -> (r: StreamingEvaluator)
    ensures
        r == evaluator_for(guard),
{
    match guard.kind {
        ResponseGuardKind::Regex(rules) => StreamingEvaluator::Regex(RegexEvaluator { rules }),
        ResponseGuardKind::Webhook { failure_mode } => StreamingEvaluator::Webhook(
            WebhookEvaluator { failure_mode },
        ),
        ResponseGuardKind::BedrockGuardrails => StreamingEvaluator::Cloud(
            CloudEvaluator {
                service: CloudService::Bedrock,
                enabled: true,
                severity_threshold: None,
            },
        ),
        ResponseGuardKind::GoogleModelArmor => StreamingEvaluator::Cloud(
            CloudEvaluator {
                service: CloudService::GoogleModelArmor,
                enabled: true,
                severity_threshold: None,
            },
        ),
        ResponseGuardKind::AzureContentSafety { analyze_text } => StreamingEvaluator::Cloud(
            CloudEvaluator {
                service: CloudService::AzureContentSafety,
                enabled: analyze_text.is_some(),
                severity_threshold: match analyze_text {
                    Some(threshold) => threshold,
                    None => None,
                },
            },
        ),
    }
}

impl StreamingEvaluator {
    /// How this guardrail fails: a webhook as it is configured, any other one as `default` says.
    pub fn failure_mode(&self, default: FailureMode) -> (r: FailureMode)
        ensures
            r == match *self {
                StreamingEvaluator::Webhook(webhook) => webhook.failure_mode,
                _ => default,
            },
            r == self.fails_as(default),
    {
        match self {
            StreamingEvaluator::Webhook(webhook) => webhook.failure_mode,
            _ => default,
        }
    }
}

/// What one guardrail's word is worth: a window that it rejects is blocked and one that it passes
/// is not, however it is to fail; where it fails, that decides.
pub proof fn law_failures_decide_only_for_errors(
    reason: String,
    error: String,
    failure_mode: FailureMode,
)
    ensures
        blocks(Ok(Some(StreamingGuardrailOutcome::Blocked(reason))), failure_mode),
        !blocks(Ok(None), failure_mode),
        blocks(Err(error), FailureMode::FailClosed),
        !blocks(Err(error), FailureMode::FailOpen),
{
}

/// One guardrail that blocks is enough, whatever the others say and wherever it stands; and a
/// window that none blocks passes.
pub proof fn law_any_guardrail_blocks(
    before: Seq<(Evaluation, FailureMode)>,
    one: (Evaluation, FailureMode),
    after: Seq<(Evaluation, FailureMode)>,
)
    ensures
        any_blocks(before + seq![one] + after) <==> any_blocks(before) || blocks(one.0, one.1)
            || any_blocks(after),
        !any_blocks(Seq::<(Evaluation, FailureMode)>::empty()),
{
    let all = before + seq![one] + after;
    let n = before.len() as int;
    assert(all[n] == one);
    if any_blocks(before) {
        let i = choose|i: int|
            0 <= i < before.len() && blocks((#[trigger] before[i]).0, before[i].1);
        assert(all[i] == before[i]);
    }
    if any_blocks(after) {
        let i = choose|i: int| 0 <= i < after.len() && blocks((#[trigger] after[i]).0, after[i].1);
        assert(all[n + 1 + i] == after[i]);
    }
    if any_blocks(all) {
        let i = choose|i: int| 0 <= i < all.len() && blocks((#[trigger] all[i]).0, all[i].1);
        if i < n {
            assert(before[i] == all[i]);
        } else if i > n {
            assert(after[i - n - 1] == all[i]);
        }
    }
}

/// Rules that reject do so where any of them applies: where a regular expression matches the
/// window, or where personal data of a kind that a rule names was found. Rules that mask never do.
pub proof fn law_one_rule_is_enough(
    rules: RegexRules,
    window: Seq<char>,
    recognized: Seq<Builtin>,
    i: int,
)
    requires
        0 <= i < rules.rules@.len(),
    ensures
        rules.action == Action::Reject ==> match rules.rules@[i] {
            RegexRule::Regex { pattern } => regex_matches(pattern, window) ==> rules_reject(
                rules,
                window,
                recognized,
            ),
            RegexRule::Builtin { builtin } => recognized.contains(builtin) ==> rules_reject(
                rules,
                window,
                recognized,
            ),
        },
        rules.action == Action::Mask ==> !rules_reject(rules, window, recognized),
{
    assert(rule_applies(rules.rules@[i], window, recognized) ==> rules.action == Action::Reject
        ==> rules_reject(rules, window, recognized));
}

/// Where no rule applies, nothing is rejected.
pub proof fn law_no_rule_no_rejection(
    rules: RegexRules,
    window: Seq<char>,
    recognized: Seq<Builtin>,
)
    requires
        forall|i: int|
            0 <= i < rules.rules@.len() ==> match #[trigger] rules.rules@[i] {
                RegexRule::Regex { pattern } => !regex_matches(pattern, window),
                RegexRule::Builtin { builtin } => !recognized.contains(builtin),
            },
    ensures
        !rules_reject(rules, window, recognized),
{
}

/// Each configuration makes the guardrail that it is for: rules and the way to fail are kept as
/// they are, and a service of a cloud looks at texts unless it is one that is not told to.
pub proof fn law_guardrails_are_made_as_configured(guard: ResponseGuard)
    ensures
        match guard.kind {
            ResponseGuardKind::Regex(rules) => evaluator_for(guard) matches
                StreamingEvaluator::Regex(e) && e.rules == rules,
            ResponseGuardKind::Webhook { failure_mode } => evaluator_for(guard) matches
                StreamingEvaluator::Webhook(e) && e.failure_mode == failure_mode,
            ResponseGuardKind::BedrockGuardrails => evaluator_for(guard) matches
                StreamingEvaluator::Cloud(e) && e.service == CloudService::Bedrock && e.enabled,
            ResponseGuardKind::GoogleModelArmor => evaluator_for(guard) matches
                StreamingEvaluator::Cloud(e) && e.service == CloudService::GoogleModelArmor
                && e.enabled,
            ResponseGuardKind::AzureContentSafety { analyze_text } => evaluator_for(
                guard,
            ) matches StreamingEvaluator::Cloud(e) && e.service == CloudService::AzureContentSafety
                && (e.enabled <==> analyze_text is Some) && (analyze_text matches Some(threshold)
                ==> e.severity_threshold == threshold),
        },
{
}

/// Why the answer of a webhook blocks a window, if it does.
pub open spec fn webhook_reason(action: ResponseAction) -> Option<Seq<char>> {
    match action {
        ResponseAction::Reject { reason: Some(reason) } => Some(
            "webhook rejected response: "@ + reason@,
        ),
        ResponseAction::Reject { reason: None } => Some("webhook rejected response: "@),
        ResponseAction::Pass | ResponseAction::Mask => None,
    }
}

/// A webhook blocks a window exactly if it rejects it, with its own reason, if it gives one; a mask
/// lets the window pass.
pub proof fn law_webhooks_block_what_they_reject(action: ResponseAction, reason: String)
    ensures
        webhook_reason(action) is Some <==> action is Reject,
        webhook_reason(ResponseAction::Reject { reason: Some(reason) }) == Some(
            webhook_reason(ResponseAction::Reject { reason: None })->0 + reason@,
        ),
{
}

impl CloudEvaluator {
    /// The severity from which on a text is blocked.
    pub open spec fn blocks_from(self) -> u32 {
        if self.severity_threshold is Some {
            self.severity_threshold->0
        } else {
            DEFAULT_SEVERITY_THRESHOLD
        }
    }

    /// Whether the service is asked about a window.
    pub open spec fn is_asked(self, window: Seq<char>) -> bool {
        self.enabled && window.len() > 0
    }
}

/// A service that is told to look at texts is asked about every window that is not empty, and any
/// other is asked about none; what is configured as its severity counts, whatever it is.
pub proof fn law_services_are_asked(evaluator: CloudEvaluator, window: Seq<char>)
    ensures
        evaluator.enabled && window.len() > 0 ==> evaluator.is_asked(window),
        !evaluator.enabled ==> !evaluator.is_asked(window),
        !evaluator.is_asked(Seq::empty()),
        evaluator.severity_threshold matches Some(t) ==> evaluator.blocks_from() == t,
        evaluator.severity_threshold is None ==> evaluator.blocks_from() == 2,
{
}

impl StreamingEvaluator {
    /// How this guardrail fails, where `default` says how others do.
    pub open spec fn fails_as(self, default: FailureMode) -> FailureMode {
        if self is Webhook {
            self->Webhook_0.failure_mode
        } else {
            default
        }
    }
}

/// A webhook fails as it is configured to, whatever the others do; all others fail alike.
pub proof fn law_webhooks_fail_as_configured(guard: ResponseGuard, default: FailureMode)
    ensures
        guard.kind matches ResponseGuardKind::Webhook { failure_mode } ==> evaluator_for(
            guard,
        ).fails_as(default) == failure_mode,
        !(guard.kind is Webhook) ==> evaluator_for(guard).fails_as(default) == default,
{
}

} // verus!
