//! What may leave an actor.

use vstd::prelude::*;
use vstd::string::*;

#[allow(unused_imports)]
use crate::ext_proc::inference::{header_text, is_header_text_byte};
#[allow(unused_imports)]
use crate::json::{json_quote, json_quoted};
#[allow(unused_imports)]
use crate::substrate::{authority_host, parse_authority, GrpcCode, SubstrateError};
#[allow(unused_imports)]
use crate::text::{ascii_lower_seq, chars_of, has_prefix, lower_range, starts_with, string_of};

verus! {

/// Enforces the policy on what may leave an actor, for each request.
#[derive(Debug)]
pub struct SubstrateEgress {
    /// The backend that knows the policies.
    pub target: String,
}

/// A host name in its usual form: without a dot at its end, in lower case. An empty one is none.
pub open spec fn normalized(hostname: Seq<char>) -> Option<Seq<char>> {
    let stripped = if hostname.len() > 0 && hostname.last() == '.' {
        hostname.drop_last()
    } else {
        hostname
    };
    if stripped.len() == 0 {
        None
    } else {
        Some(ascii_lower_seq(stripped))
    }
}

/// A host name in its usual form.
pub fn normalize_hostname(hostname: &str) -> (r: Option<String>)
    ensures
        match r {
            Some(name) => normalized(hostname@) == Some(name@),
            None => normalized(hostname@) is None,
        },
{
    let chars = chars_of(hostname);
    let mut end: usize = chars.len();
    if end > 0 && chars[end - 1] == '.' {
        end = end - 1;
    }
    assert(chars@.subrange(0, end as int) =~= if hostname@.len() > 0 && hostname@.last() == '.' {
        hostname@.drop_last()
    } else {
        hostname@
    });
    if end == 0 {
        return None;
    }
    Some(lower_range(&chars, 0, end))
}

/// What is known of the TLS connection of a request.
#[derive(Debug)]
pub struct TlsConnection {
    /// Whether the peer showed an identity.
    pub has_identity: bool,
    pub server_name: Option<String>,
}

/// The server name of an inner TLS connection. An outer one shows the identity of an actor, and
/// its server name is that of the gateway.
pub open spec fn inner_server_name(tls: Option<TlsConnection>) -> Option<Seq<char>> {
    match tls {
        Some(TlsConnection { has_identity: false, server_name: Some(name) }) => Some(name@),
        _ => None,
    }
}

/// The host in a `host` header.
pub open spec fn header_host(header: Option<Seq<u8>>) -> Option<Seq<char>> {
    match header {
        Some(value) => if forall|i: int|
            0 <= i < value.len() ==> is_header_text_byte(#[trigger] value[i]) {
            match authority_host(value.map_values(|b: u8| b as char)) {
                Ok(host) => Some(host),
                Err(_) => None,
            }
        } else {
            None
        },
        None => None,
    }
}

/// The host name that a request goes to: that in its URI, or that in its `host` header, or the
/// server name of an inner TLS connection.
pub open spec fn destination_hostname(
    uri_host: Option<Seq<char>>,
    host_header: Option<Seq<u8>>,
    tls: Option<TlsConnection>,
) -> Option<Seq<char>> {
    let found = match (uri_host, header_host(host_header)) {
        (Some(host), _) => Some(host),
        (None, Some(host)) => Some(host),
        (None, None) => inner_server_name(tls),
    };
    match found {
        Some(host) => normalized(host),
        None => None,
    }
}

/// The host name that a request goes to.
pub fn request_hostname(
    uri_host: Option<&str>,
    host_header: Option<&[u8]>,
    tls: &Option<TlsConnection>,
) -> (r: Option<String>)
    ensures
        ({
            let expected = destination_hostname(
                match uri_host {
                    Some(host) => Some(host@),
                    None => None,
                },
                match host_header {
                    Some(value) => Some(value@),
                    None => None,
                },
                *tls,
            );
            match r {
                Some(name) => expected == Some(name@),
                None => expected is None,
            }
        }),
{
    if let Some(host) = uri_host {
        return normalize_hostname(host);
    }
    if let Some(value) = host_header {
        if let Some(text) = header_text(value) {
            assert(text@ =~= value@.map_values(|b: u8| b as char));
            if let Ok(host) = parse_authority(text.as_str()) {
                return normalize_hostname(host.as_str());
            }
        }
    }
    match tls {
        Some(TlsConnection { has_identity: false, server_name: Some(name) }) => normalize_hostname(
            name.as_str(),
        ),
        _ => None,
    }
}

/// Whether a character has a meaning in a regular expression.
pub open spec fn is_meta(c: char) -> bool {
    c == '\\' || c == '.' || c == '+' || c == '*' || c == '?' || c == '(' || c == ')' || c == '|'
        || c == '[' || c == ']' || c == '{' || c == '}' || c == '^' || c == '$' || c == '#' || c
        == '&' || c == '-' || c == '~'
}

/// A regular expression that matches a text literally: each character that has a meaning is
/// escaped.
pub open spec fn escaped(s: Seq<char>) -> Seq<char>
    decreases s.len(),
{
    if s.len() == 0 {
        Seq::empty()
    } else {
        let before = escaped(s.drop_last());
        if is_meta(s.last()) {
            before.push('\\').push(s.last())
        } else {
            before.push(s.last())
        }
    }
}

/// Escapes a text (`regex::escape`).
///
/// Trusted: a backslash is put before each character that has a meaning in a regular expression,
/// and nothing else changes.
#[verifier::external_body]
fn escape(s: &str) -> (r: String)
    ensures
        r@ == escaped(s@),
{
    regex::escape(s)
}

/// The regular expression for a host name pattern. A pattern that begins with `*.` stands for
/// exactly one label before the rest; any other one stands for itself.
pub open spec fn pattern_regex(pattern: Seq<char>) -> Seq<char> {
    let name = match normalized(pattern) {
        Some(name) => name,
        None => Seq::empty(),
    };
    let literal = escaped(name);
    if starts_with(literal, "\\*\\."@) {
        "^[^.]+\\."@ + literal.skip("\\*\\."@.len() as int) + "$"@
    } else {
        "^"@ + literal + "$"@
    }
}

/// The regular expression for a host name pattern.
pub fn hostname_pattern(pattern: &str) -> (r: String)
    ensures
        r@ == pattern_regex(pattern@),
{
    let name = match normalize_hostname(pattern) {
        Some(name) => name,
        None => String::new(),
    };
    assert(name@ =~= match normalized(pattern@) {
        Some(name) => name,
        None => Seq::empty(),
    });
    let literal = escape(name.as_str());
    let chars = chars_of(literal.as_str());
    let wildcard = chars_of("\\*\\.");
    if has_prefix(&chars, &wildcard) {
        let suffix = string_of(&chars, wildcard.len(), chars.len());
        assert(suffix@ =~= literal@.skip("\\*\\."@.len() as int));
        let mut out = "^[^.]+\\.".to_owned();
        out.append(suffix.as_str());
        out.append("$");
        out
    } else {
        let mut out = "^".to_owned();
        out.append(literal.as_str());
        out.append("$");
        out
    }
}

/// A rule of a policy on what may leave an actor.
#[derive(Debug)]
pub struct EgressRule {
    /// Ranges of addresses.
    pub ip_blocks: Option<Vec<String>>,
    /// Whether everything may leave.
    pub all: bool,
    /// Patterns of host names.
    pub hostnames: Option<HostnameRule>,
}

/// Patterns of host names, and what is done to requests that go there.
#[derive(Debug)]
pub struct HostnameRule {
    pub patterns: Vec<String>,
    /// The headers that are injected, where effects are given.
    pub inject_static_headers: Option<Vec<String>>,
}

/// A policy on what may leave an actor.
#[derive(Debug)]
pub struct EgressPolicy {
    pub rules: Vec<EgressRule>,
}

/// What an expression was made from.
#[derive(Debug, Clone, Copy, PartialEq, Eq, Structural)]
pub enum ExpressionSource {
    Cidr,
    Hostname,
    Literal,
}

/// An expression that allows a destination where it is true.
#[derive(Debug)]
pub struct AllowExpression {
    pub source: ExpressionSource,
    pub text: String,
}

/// An expression that allows a destination where it is true, as plain values.
pub ghost struct AllowView {
    pub source: ExpressionSource,
    pub text: Seq<char>,
}

impl View for AllowExpression {
    type V = AllowView;

    open spec fn view(&self) -> AllowView {
        AllowView { source: self.source, text: self.text@ }
    }
}

/// The views of expressions.
pub open spec fn allow_views(exprs: Seq<AllowExpression>) -> Seq<AllowView> {
    exprs.map_values(|e: AllowExpression| e@)
}

/// The expression for a range of addresses.
pub open spec fn cidr_expression(cidr: Seq<char>) -> AllowView {
    AllowView {
        source: ExpressionSource::Cidr,
        text: "cidr("@ + json_quoted(cidr) + ").containsIP(destination.address)"@,
    }
}

/// The expression for a pattern of host names.
pub open spec fn hostname_expression(pattern: Seq<char>) -> AllowView {
    AllowView {
        source: ExpressionSource::Hostname,
        text: "destination.hostname.matches("@ + json_quoted(pattern_regex(pattern)) + ")"@,
    }
}

/// The expressions of a rule: for its ranges, for everything, and for its patterns.
pub open spec fn rule_expressions(rule: EgressRule) -> Seq<AllowView> {
    let cidrs = match rule.ip_blocks {
        Some(cidrs) => cidrs@.map_values(|c: String| cidr_expression(c@)),
        None => Seq::empty(),
    };
    let all = if rule.all {
        seq![AllowView { source: ExpressionSource::Literal, text: "true"@ }]
    } else {
        Seq::empty()
    };
    let hostnames = match rule.hostnames {
        Some(h) => h.patterns@.map_values(|p: String| hostname_expression(p@)),
        None => Seq::empty(),
    };
    cidrs + all + hostnames
}

/// The expressions of rules, one after the other.
pub open spec fn rules_expressions(rules: Seq<EgressRule>) -> Seq<AllowView>
    decreases rules.len(),
{
    if rules.len() == 0 {
        Seq::empty()
    } else {
        rules_expressions(rules.drop_last()) + rule_expressions(rules.last())
    }
}

/// The expressions of a policy. A policy that allows nothing has one that is never true: without
/// any, everything would be allowed.
pub open spec fn policy_expressions(policy: EgressPolicy) -> Seq<AllowView> {
    let exprs = rules_expressions(policy.rules@);
    if exprs.len() == 0 {
        seq![AllowView { source: ExpressionSource::Literal, text: "false"@ }]
    } else {
        exprs
    }
}

proof fn lemma_allow_push(exprs: Seq<AllowExpression>, e: AllowExpression)
    ensures
        allow_views(exprs.push(e)) == allow_views(exprs).push(e@),
{
    assert(allow_views(exprs.push(e)) =~= allow_views(exprs).push(e@));
}

fn append_cidrs(allow: &mut Vec<AllowExpression>, cidrs: &Vec<String>)
    ensures
        allow_views(final(allow)@) == allow_views(old(allow)@) + cidrs@.map_values(
            |c: String| cidr_expression(c@),
        ),
{
    let ghost before = allow_views(allow@);
    let ghost all = cidrs@.map_values(|c: String| cidr_expression(c@));
    let mut i: usize = 0;
    assert(before + all.take(0) =~= before);
    while i < cidrs.len()
        invariant
            i <= cidrs@.len(),
            all == cidrs@.map_values(|c: String| cidr_expression(c@)),
            allow_views(allow@) == before + all.take(i as int),
        decreases cidrs.len() - i,
    {
        let mut text = "cidr(".to_owned();
        let quoted = json_quote(cidrs[i].as_str());
        text.append(quoted.as_str());
        text.append(").containsIP(destination.address)");
        let e = AllowExpression { source: ExpressionSource::Cidr, text };
        proof {
            lemma_allow_push(allow@, e);
            assert(before + all.take(i + 1) =~= (before + all.take(i as int)).push(all[i as int]));
        }
        allow.push(e);
        i += 1;
    }
    assert(all.take(i as int) =~= all);
}

fn append_patterns(allow: &mut Vec<AllowExpression>, patterns: &Vec<String>)
    ensures
        allow_views(final(allow)@) == allow_views(old(allow)@) + patterns@.map_values(
            |p: String| hostname_expression(p@),
        ),
{
    let ghost before = allow_views(allow@);
    let ghost all = patterns@.map_values(|p: String| hostname_expression(p@));
    let mut i: usize = 0;
    assert(before + all.take(0) =~= before);
    while i < patterns.len()
        invariant
            i <= patterns@.len(),
            all == patterns@.map_values(|p: String| hostname_expression(p@)),
            allow_views(allow@) == before + all.take(i as int),
        decreases patterns.len() - i,
    {
        let mut text = "destination.hostname.matches(".to_owned();
        let pattern = hostname_pattern(patterns[i].as_str());
        let quoted = json_quote(pattern.as_str());
        text.append(quoted.as_str());
        text.append(")");
        let e = AllowExpression { source: ExpressionSource::Hostname, text };
        proof {
            lemma_allow_push(allow@, e);
            assert(before + all.take(i + 1) =~= (before + all.take(i as int)).push(all[i as int]));
        }
        allow.push(e);
        i += 1;
    }
    assert(all.take(i as int) =~= all);
}

fn append_rule(allow: &mut Vec<AllowExpression>, rule: &EgressRule)
    ensures
        allow_views(final(allow)@) == allow_views(old(allow)@) + rule_expressions(*rule),
{
    let ghost before = allow_views(allow@);
    if let Some(cidrs) = &rule.ip_blocks {
        append_cidrs(allow, cidrs);
    }
    if rule.all {
        let e = AllowExpression { source: ExpressionSource::Literal, text: "true".to_owned() };
        proof {
            lemma_allow_push(allow@, e);
        }
        allow.push(e);
    }
    if let Some(hostnames) = &rule.hostnames {
        append_patterns(allow, &hostnames.patterns);
    }
    assert(allow_views(allow@) =~= before + rule_expressions(*rule));
}

/// The expressions of a policy, one of which must be true for a destination to be allowed.
pub fn http_authorization(policy: &EgressPolicy) -> (r: Vec<AllowExpression>)
    ensures
        allow_views(r@) == policy_expressions(*policy),
{
    let ghost rules = policy.rules@;
    let mut allow: Vec<AllowExpression> = Vec::new();
    let mut i: usize = 0;
    assert(rules.take(0) =~= Seq::empty());
    assert(allow_views(allow@) =~= Seq::empty());
    while i < policy.rules.len()
        invariant
            i <= policy.rules@.len(),
            rules == policy.rules@,
            allow_views(allow@) == rules_expressions(rules.take(i as int)),
        decreases policy.rules.len() - i,
    {
        assert(rules.take(i + 1).drop_last() =~= rules.take(i as int));
        append_rule(&mut allow, &policy.rules[i]);
        i += 1;
    }
    assert(rules.take(i as int) =~= rules);
    if allow.len() == 0 {
        let e = AllowExpression { source: ExpressionSource::Literal, text: "false".to_owned() };
        proof {
            lemma_allow_push(allow@, e);
            assert(allow_views(allow@.push(e)) =~= policy_expressions(*policy));
        }
        allow.push(e);
    }
    allow
}

/// The error for an expression that cannot be used.
pub fn invalid_expression(source: ExpressionSource, error: &str) -> (r: SubstrateError)
    ensures
        r matches SubstrateError::EgressDenied(text) && text@ == (match source {
            ExpressionSource::Cidr => "invalid actor egress CIDR: "@,
            _ => "invalid actor egress hostname: "@,
        }) + error@,
{
    let text = match source {
        ExpressionSource::Cidr => "invalid actor egress CIDR: ",
        _ => "invalid actor egress hostname: ",
    };
    SubstrateError::EgressDenied(text.to_owned().concat(error))
}

/// The error for traffic that shows no identity of an actor.
pub fn missing_identity() -> (r: SubstrateError)
    ensures
        r matches SubstrateError::EgressDenied(text) && text@
            == "missing CONNECT-authorized actor identity"@,
{
    SubstrateError::EgressDenied("missing CONNECT-authorized actor identity".to_owned())
}

/// The error for a destination that no rule allows.
pub fn destination_denied() -> (r: SubstrateError)
    ensures
        r matches SubstrateError::EgressDenied(text) && text@
            == "actor egress policy denied destination"@,
{
    SubstrateError::EgressDenied("actor egress policy denied destination".to_owned())
}

/// The error for a policy that could not be fetched: it may be there later, or it is refused.
/// `status` shows what came back.
pub fn policy_error(code: GrpcCode, status: &str) -> (r: SubstrateError)
    ensures
        if code == GrpcCode::Unavailable || code == GrpcCode::DeadlineExceeded {
            r matches SubstrateError::EgressUnavailable(text) && text@
                == "actor egress policy unavailable: "@ + status@
        } else {
            r matches SubstrateError::EgressDenied(text) && text@
                == "actor egress policy denied: "@ + status@
        },
{
    if code == GrpcCode::Unavailable || code == GrpcCode::DeadlineExceeded {
        SubstrateError::EgressUnavailable(
            "actor egress policy unavailable: ".to_owned().concat(status),
        )
    } else {
        SubstrateError::EgressDenied("actor egress policy denied: ".to_owned().concat(status))
    }
}

/// Normalizing a host name that has no dot at its end twice is normalizing it once.
pub proof fn law_normalizing_is_idempotent(hostname: Seq<char>)
    requires
        normalized(hostname) is Some,
        normalized(hostname)->0.last() != '.',
    ensures
        normalized(normalized(hostname)->0) == normalized(hostname),
{
    let n = normalized(hostname)->0;
    assert(ascii_lower_seq(n) =~= n);
}

/// A policy never leaves it to chance: there is always an expression to decide by, and where no
/// rule allows anything it is never true.
pub proof fn law_empty_policy_denies(policy: EgressPolicy)
    ensures
        policy_expressions(policy).len() > 0,
        rules_expressions(policy.rules@).len() == 0 ==> policy_expressions(policy) == seq![
            AllowView { source: ExpressionSource::Literal, text: "false"@ },
        ],
{
}

/// Every range and every pattern of every rule is among the expressions of a policy.
pub proof fn law_every_rule_counts(policy: EgressPolicy, i: int, k: int)
    requires
        0 <= i < policy.rules@.len(),
        0 <= k < rule_expressions(policy.rules@[i]).len(),
    ensures
        policy_expressions(policy).contains(rule_expressions(policy.rules@[i])[k]),
{
    lemma_rule_counts(policy.rules@, i, k);
}

proof fn lemma_rule_counts(rules: Seq<EgressRule>, i: int, k: int)
    requires
        0 <= i < rules.len(),
        0 <= k < rule_expressions(rules[i]).len(),
    ensures
        rules_expressions(rules).contains(rule_expressions(rules[i])[k]),
    decreases rules.len(),
{
    let e = rule_expressions(rules[i])[k];
    let before = rules_expressions(rules.drop_last());
    let all = rules_expressions(rules);
    if i == rules.len() - 1 {
        assert(all[before.len() + k] == e);
    } else {
        lemma_rule_counts(rules.drop_last(), i, k);
        let j = choose|j: int| 0 <= j < before.len() && before[j] == e;
        assert(all[j] == e);
    }
}

/// What a rule allows is what it lists: each of its ranges, everything where it says so, and each
/// of its patterns, and nothing else.
pub proof fn law_rules_allow_what_they_list(rule: EgressRule, k: int)
    ensures
        rule.ip_blocks matches Some(cidrs) ==> 0 <= k < cidrs@.len() ==> rule_expressions(
            rule,
        ).contains(cidr_expression(cidrs@[k]@)),
        rule.all ==> rule_expressions(rule).contains(
            AllowView { source: ExpressionSource::Literal, text: "true"@ },
        ),
        rule.hostnames matches Some(h) ==> 0 <= k < h.patterns@.len() ==> rule_expressions(
            rule,
        ).contains(hostname_expression(h.patterns@[k]@)),
        0 <= k < rule_expressions(rule).len() ==> ({
            let e = rule_expressions(rule)[k];
            ||| e.source == ExpressionSource::Cidr && rule.ip_blocks is Some && exists|i: int|
                0 <= i < rule.ip_blocks->0@.len() && e == cidr_expression(
                    #[trigger] rule.ip_blocks->0@[i]@,
                )
            ||| e.source == ExpressionSource::Literal && rule.all && e.text == "true"@
            ||| e.source == ExpressionSource::Hostname && rule.hostnames is Some && exists|i: int|
                0 <= i < rule.hostnames->0.patterns@.len() && e == hostname_expression(
                    #[trigger] rule.hostnames->0.patterns@[i]@,
                )
        }),
{
    let all = rule_expressions(rule);
    let cidrs = match rule.ip_blocks {
        Some(cidrs) => cidrs@.map_values(|c: String| cidr_expression(c@)),
        None => Seq::empty(),
    };
    let n = cidrs.len() as int;
    let m: int = n + if rule.all {
        1int
    } else {
        0int
    };
    if let Some(c) = rule.ip_blocks {
        if 0 <= k < c@.len() {
            assert(all[k] == cidr_expression(c@[k]@));
        }
    }
    if rule.all {
        assert(all[n] == (AllowView { source: ExpressionSource::Literal, text: "true"@ }));
    }
    if let Some(h) = rule.hostnames {
        if 0 <= k < h.patterns@.len() {
            assert(all[m + k] == hostname_expression(h.patterns@[k]@));
        }
    }
    if 0 <= k < all.len() {
        if k < n {
            assert(all[k] == cidr_expression(rule.ip_blocks->0@[k]@));
        } else if k >= m {
            assert(all[k] == hostname_expression(rule.hostnames->0.patterns@[k - m]@));
        }
    }
}

/// The rules of a policy are taken one after the other, each with all of its expressions.
pub proof fn law_rules_are_taken_in_order(rules: Seq<EgressRule>, rule: EgressRule)
    ensures
        rules_expressions(rules.push(rule)) == rules_expressions(rules) + rule_expressions(rule),
        rules_expressions(Seq::empty()).len() == 0,
{
    assert(rules.push(rule).drop_last() =~= rules);
}

/// A policy whose rules list something allows exactly that.
pub proof fn law_policies_allow_what_their_rules_allow(policy: EgressPolicy)
    requires
        rules_expressions(policy.rules@).len() > 0,
    ensures
        policy_expressions(policy) == rules_expressions(policy.rules@),
{
}

/// A range is asked for the address of the destination, and a pattern for its host name, each
/// quoted as a whole.
pub proof fn law_expressions_ask_for_the_destination(text: Seq<char>)
    ensures
        cidr_expression(text).text == "cidr("@ + json_quoted(text)
            + ").containsIP(destination.address)"@,
        hostname_expression(text).text == "destination.hostname.matches("@ + json_quoted(
            pattern_regex(text),
        ) + ")"@,
{
}

/// One dot at the end of a host name and the case of its letters do not matter; a host name that
/// is nothing but that is none.
pub proof fn law_host_names_are_normalized(name: Seq<char>)
    requires
        name.len() > 0,
        name.last() != '.',
    ensures
        normalized(name) == Some(ascii_lower_seq(name)),
        normalized(name.push('.')) == normalized(name),
        normalized(ascii_lower_seq(name)) == normalized(name),
        normalized(Seq::empty()) is None,
        normalized(seq!['.']) is None,
{
    assert(name.push('.').drop_last() =~= name);
    assert(seq!['.'].drop_last() =~= Seq::<char>::empty());
    crate::text::law_lower_case_is_settled(name, name.len() - 1);
}

/// The URI says where a request goes, whatever its headers and its connection say.
pub proof fn law_uri_decides_the_destination(
    uri_host: Seq<char>,
    host_header: Option<Seq<u8>>,
    tls: Option<TlsConnection>,
)
    ensures
        destination_hostname(Some(uri_host), host_header, tls) == normalized(uri_host),
{
}

/// Where the URI names no host, the `host` header decides, if it is an authority; otherwise the
/// server name of the connection does, unless the connection shows the identity of an actor.
pub proof fn law_header_decides_before_the_connection(
    header: Seq<u8>,
    host: Seq<char>,
    name: String,
    tls: Option<TlsConnection>,
)
    ensures
        (forall|i: int| 0 <= i < header.len() ==> is_header_text_byte(#[trigger] header[i]))
            && authority_host(header.map_values(|b: u8| b as char)) == Ok::<Seq<char>, Seq<char>>(
            host,
        ) ==> destination_hostname(None, Some(header), tls) == normalized(host),
        (exists|i: int| 0 <= i < header.len() && !is_header_text_byte(#[trigger] header[i]))
            || authority_host(header.map_values(|b: u8| b as char)) is Err ==> destination_hostname(
            None,
            Some(header),
            tls,
        ) == destination_hostname(None, None, tls),
        destination_hostname(
            None,
            None,
            Some(TlsConnection { has_identity: false, server_name: Some(name) }),
        ) == normalized(name@),
        tls is None || tls->0.has_identity || tls->0.server_name is None ==> destination_hostname(
            None,
            None,
            tls,
        ) is None,
{
}

proof fn lemma_escaped_append(a: Seq<char>, b: Seq<char>)
    ensures
        escaped(a + b) == escaped(a) + escaped(b),
    decreases b.len(),
{
    if b.len() == 0 {
        assert(a + b =~= a);
        assert(escaped(a) + escaped(b) =~= escaped(a));
    } else {
        lemma_escaped_append(a, b.drop_last());
        assert((a + b).drop_last() =~= a + b.drop_last());
        assert(escaped(a + b) =~= escaped(a) + escaped(b));
    }
}

/// A pattern that begins with `*.` stands for one label, of at least one character and with no
/// dot, before the rest, which stands for itself.
pub proof fn law_wildcards_stand_for_one_label(rest: Seq<char>)
    requires
        rest.len() > 0,
        rest.last() != '.',
    ensures
        pattern_regex("*."@ + rest) == "^[^.]+\\."@ + escaped(ascii_lower_seq(rest)) + "$"@,
{
    reveal_strlit("*.");
    reveal_strlit("\\*\\.");
    let pattern = "*."@ + rest;
    let low = ascii_lower_seq(rest);
    let name = normalized(pattern)->0;
    assert(name =~= "*."@ + low);
    lemma_escaped_append("*."@, low);
    assert(escaped("*."@) =~= "\\*\\."@) by {
        reveal_with_fuel(escaped, 3);
        assert("*."@.drop_last().drop_last() =~= Seq::empty());
        assert("*."@.drop_last().last() == '*');
        assert("*."@.last() == '.');
    }
    let literal = escaped(name);
    assert(literal == "\\*\\."@ + escaped(low));
    assert(literal.take(4) =~= "\\*\\."@);
    assert(starts_with(literal, "\\*\\."@));
    assert(literal.skip(4) =~= escaped(low));
}

/// A pattern that does not begin with a wildcard stands for itself, from its beginning to its end.
pub proof fn law_other_patterns_stand_for_themselves(pattern: Seq<char>)
    requires
        pattern.len() > 0,
        pattern[0] != '*',
        pattern.last() != '.',
    ensures
        pattern_regex(pattern) == "^"@ + escaped(ascii_lower_seq(pattern)) + "$"@,
{
    reveal_strlit("\\*\\.");
    let name = ascii_lower_seq(pattern);
    assert(normalized(pattern) == Some(name));
    let first = name.take(1);
    assert(name =~= first + name.skip(1));
    lemma_escaped_append(first, name.skip(1));
    reveal_with_fuel(escaped, 2);
    assert(first.drop_last() =~= Seq::empty());
    assert(first.last() == name[0]);
    assert(name[0] != '*');
    let literal = escaped(name);
    assert(literal =~= escaped(first) + escaped(name.skip(1)));
    if starts_with(literal, "\\*\\."@) {
        assert(literal.take(4)[0] == '\\');
        assert(literal.take(4)[1] == '*');
        if is_meta(name[0]) {
            assert(escaped(first)[1] == name[0]);
        } else {
            assert(escaped(first)[0] == name[0]);
        }
    }
}

} // verus!
