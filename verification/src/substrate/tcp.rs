//! What may leave an actor over plain TCP.

use vstd::prelude::*;
use vstd::string::*;

use crate::substrate::egress::EgressRule;
use crate::substrate::ingress::SubstrateIngress;
use crate::substrate::SubstrateError;
#[allow(unused_imports)]
use crate::text::{ascii_lower_seq, chars_of, lower_range};

verus! {

/// Enforces the policy on what may leave an actor, once for each TCP connection.
#[derive(Debug)]
pub struct SubstrateTcpEgress {
    /// The backend that knows the policies.
    pub target: String,
}

/// How actors are reached over plain TCP.
#[derive(Debug)]
pub struct SubstrateTcpIngress {
    pub ingress: SubstrateIngress,
}

/// A text without the dots at its end.
pub open spec fn without_dots(s: Seq<char>) -> Seq<char>
    decreases s.len(),
{
    if s.len() > 0 && s.last() == '.' {
        without_dots(s.drop_last())
    } else {
        s
    }
}

/// The host name of a destination without the dots at its end and in lower case; an empty one is
/// none.
pub fn destination_hostname(hostname: Option<&str>) -> (r: Option<String>)
    ensures
        match hostname {
            Some(h) if without_dots(h@).len() > 0 => r matches Some(name) && name@
                == ascii_lower_seq(without_dots(h@)),
            _ => r is None,
        },
        hostname is None ==> r is None,
        hostname matches Some(h) ==> match usual_hostname(h@) {
            Some(usual) => r matches Some(name) && name@ == usual,
            None => r is None,
        },
{
    let hostname = match hostname {
        Some(hostname) => hostname,
        None => {
            return None;
        },
    };
    let chars = chars_of(hostname);
    let mut end: usize = chars.len();
    assert(chars@.subrange(0, end as int) =~= hostname@);
    while end > 0 && chars[end - 1] == '.'
        invariant
            end <= chars@.len(),
            without_dots(chars@.subrange(0, end as int)) == without_dots(hostname@),
        decreases end,
    {
        assert(chars@.subrange(0, end as int).drop_last() =~= chars@.subrange(0, end - 1));
        end = end - 1;
    }
    if end == 0 {
        return None;
    }
    Some(lower_range(&chars, 0, end))
}

/// Checks that a rule can be applied to a TCP connection: headers cannot be injected into one.
pub fn validate_tcp_effects(rule: &EgressRule) -> (r: Result<(), SubstrateError>)
    ensures
        match rule.hostnames {
            Some(h) => match h.inject_static_headers {
                Some(headers) => if headers@.len() > 0 {
                    r matches Err(SubstrateError::EgressDenied(text)) && text@
                        == "TCP passthrough cannot apply HTTP header injection effects"@
                } else {
                    r is Ok
                },
                None => r is Ok,
            },
            None => r is Ok,
        },
        r is Err <==> needs_http(*rule),
{
    if let Some(hostnames) = &rule.hostnames {
        if let Some(headers) = &hostnames.inject_static_headers {
            if headers.len() > 0 {
                return Err(
                    SubstrateError::EgressDenied(
                        "TCP passthrough cannot apply HTTP header injection effects".to_owned(),
                    ),
                );
            }
        }
    }
    Ok(())
}

/// All dots at the end of a host name are taken off, and nothing else is.
pub proof fn law_only_dots_are_taken_off(s: Seq<char>)
    ensures
        without_dots(s).len() <= s.len(),
        s.take(without_dots(s).len() as int) == without_dots(s),
        forall|i: int| without_dots(s).len() <= i < s.len() ==> #[trigger] s[i] == '.',
        without_dots(s).len() > 0 ==> without_dots(s).last() != '.',
    decreases s.len(),
{
    if s.len() > 0 && s.last() == '.' {
        let d = s.drop_last();
        law_only_dots_are_taken_off(d);
        assert(s.take(without_dots(d).len() as int) =~= d.take(without_dots(d).len() as int));
        assert forall|i: int| without_dots(s).len() <= i < s.len() implies #[trigger] s[i]
            == '.' by {
            if i < d.len() {
                assert(d[i] == s[i]);
            }
        }
    } else {
        assert(s.take(s.len() as int) =~= s);
    }
}

/// The host name of a destination in its usual form, if there is one.
pub open spec fn usual_hostname(hostname: Seq<char>) -> Option<Seq<char>> {
    if without_dots(hostname).len() == 0 {
        None
    } else {
        Some(ascii_lower_seq(without_dots(hostname)))
    }
}

/// However many dots stand at the end of a host name, and in whichever case its letters are, it is
/// the same host; a host name that is nothing but dots is none.
pub proof fn law_dots_and_case_do_not_matter(hostname: Seq<char>)
    ensures
        usual_hostname(hostname.push('.')) == usual_hostname(hostname),
        usual_hostname(Seq::empty()) is None,
        usual_hostname(hostname) matches Some(name) ==> name.len() > 0 && name == ascii_lower_seq(
            hostname.take(name.len() as int),
        ),
{
    assert(hostname.push('.').drop_last() =~= hostname);
    law_only_dots_are_taken_off(hostname);
}

/// Whether a rule cannot be applied to a TCP connection.
pub open spec fn needs_http(rule: EgressRule) -> bool {
    &&& rule.hostnames is Some
    &&& rule.hostnames->0.inject_static_headers is Some
    &&& rule.hostnames->0.inject_static_headers->0@.len() > 0
}

/// Only a rule that injects headers cannot be applied to a TCP connection: one that lists none, or
/// no host names at all, can.
pub proof fn law_only_injection_needs_http(rule: EgressRule)
    ensures
        rule.hostnames is None ==> !needs_http(rule),
        rule.hostnames matches Some(h) ==> (needs_http(rule) <==> (
        h.inject_static_headers matches Some(headers) && headers@.len() > 0)),
{
}

} // verus!
