//! Holding the headers of a packet against the rules.
//!
//! A rule matches a packet if its protocol fits and its endpoints fit. An endpoint fits if
//! its address and its port both do. The direction of the rule says which of its endpoints
//! is laid over which endpoint of the packet; `<>` allows either way.
use crate::packet_headers::{DecodedHeaders, TransportProtocol};
use crate::rule_parser::{
    laid_out, law_layout_is_immaterial, lemma_single_spaces, parse_rule, rule_models,
    single_spaces, Direction, ParseError, RuleAction, RuleModel, SnortRule,
};
use crate::text::{
    decimal, dotted_quad, eq_ignore_ascii_case, eq_ignoring_ascii_case, lemma_decimal_injective,
    push_decimal, push_dotted_quad, same_text,
};
use vstd::prelude::*;

verus! {

/// A rule that matched a packet: the rule's action and the packet's endpoints.
#[derive(Debug, Clone, Copy, PartialEq, Eq)]
pub struct MatchEvent {
    pub action: RuleAction,
    pub src_ip: [u8; 4],
    pub src_port: u16,
    pub dst_ip: [u8; 4],
    pub dst_port: u16,
}

/// The wildcard `any`, which stands for every value of a field.
pub open spec fn is_wildcard(token: Seq<char>) -> bool {
    token == "any"@
}

/// A rule's protocol fits a packet's if it is the wildcard or, but for the case of its
/// letters, the name of the packet's protocol.
pub open spec fn protocol_ok(rule_protocol: Seq<char>, protocol: TransportProtocol) -> bool {
    is_wildcard(rule_protocol) || eq_ignoring_ascii_case(rule_protocol, protocol.name())
}

/// One endpoint of a rule fits one endpoint of a packet if the address is the wildcard or
/// the packet's address in dotted form, and the port is the wildcard or the packet's port
/// in decimal form.
pub open spec fn endpoint_ok(
    rule_ip: Seq<char>,
    rule_port: Seq<char>,
    ip: [u8; 4],
    port: u16,
) -> bool {
    &&& is_wildcard(rule_ip) || rule_ip == dotted_quad(ip@)
    &&& is_wildcard(rule_port) || rule_port == decimal(port as nat)
}

/// The rule's source laid over the packet's source, its destination over the packet's.
pub open spec fn forward_ok(rule: RuleModel, h: DecodedHeaders) -> bool {
    &&& endpoint_ok(rule.src_ip, rule.src_port, h.src_ip, h.src_port)
    &&& endpoint_ok(rule.dst_ip, rule.dst_port, h.dst_ip, h.dst_port)
}

/// The rule's source laid over the packet's destination, its destination over the
/// packet's source.
pub open spec fn reverse_ok(rule: RuleModel, h: DecodedHeaders) -> bool {
    &&& endpoint_ok(rule.src_ip, rule.src_port, h.dst_ip, h.dst_port)
    &&& endpoint_ok(rule.dst_ip, rule.dst_port, h.src_ip, h.src_port)
}

/// Whether the endpoints fit in the way the rule's direction asks for.
pub open spec fn endpoints_ok(rule: RuleModel, h: DecodedHeaders) -> bool {
    match rule.direction {
        Direction::Forward => forward_ok(rule, h),
        Direction::Reverse => reverse_ok(rule, h),
        Direction::Bidirectional => forward_ok(rule, h) || reverse_ok(rule, h),
    }
}

/// Whether a rule matches a packet: the protocol fits, and so do the endpoints.
pub open spec fn is_match(rule: RuleModel, h: DecodedHeaders) -> bool {
    protocol_ok(rule.protocol, h.protocol) && endpoints_ok(rule, h)
}

/// The event that a matching rule gives rise to.
pub open spec fn event_of(rule: RuleModel, h: DecodedHeaders) -> MatchEvent {
    MatchEvent {
        action: rule.action,
        src_ip: h.src_ip,
        src_port: h.src_port,
        dst_ip: h.dst_ip,
        dst_port: h.dst_port,
    }
}

/// The events of a packet: one for each rule that matches, in the order of the rules.
pub open spec fn match_events(h: DecodedHeaders, rules: Seq<RuleModel>) -> Seq<MatchEvent> {
    rules.filter(|rule: RuleModel| is_match(rule, h)).map_values(
        |rule: RuleModel| event_of(rule, h),
    )
}

/// Whether `token` is the wildcard.
pub fn is_any(token: &str) -> (b: bool)
    ensures
        b == is_wildcard(token@),
{
    same_text(token, "any")
}

/// The fields of a packet in the textual forms that rules are written in.
#[derive(Debug, Clone, PartialEq, Eq)]
pub struct PacketText {
    pub src_ip: String,
    pub src_port: String,
    pub dst_ip: String,
    pub dst_port: String,
}

impl PacketText {
    /// Whether these are the textual forms of the fields of `h`.
    pub open spec fn describes(&self, h: DecodedHeaders) -> bool {
        &&& self.src_ip@ == dotted_quad(h.src_ip@)
        &&& self.src_port@ == decimal(h.src_port as nat)
        &&& self.dst_ip@ == dotted_quad(h.dst_ip@)
        &&& self.dst_port@ == decimal(h.dst_port as nat)
    }

    /// Writes the addresses in dotted form and the ports in decimal form.
    pub fn of(headers: &DecodedHeaders) -> (text: PacketText)
        ensures
            text.describes(*headers),
    {
        let mut src_ip = String::new();
        push_dotted_quad(&mut src_ip, &headers.src_ip);
        let mut src_port = String::new();
        push_decimal(&mut src_port, headers.src_port as u64);
        let mut dst_ip = String::new();
        push_dotted_quad(&mut dst_ip, &headers.dst_ip);
        let mut dst_port = String::new();
        push_decimal(&mut dst_port, headers.dst_port as u64);
        PacketText { src_ip, src_port, dst_ip, dst_port }
    }
}

fn endpoint_fits(rule_ip: &String, rule_port: &String, ip: &String, port: &String) -> (b: bool)
    ensures
        b == ((is_wildcard(rule_ip@) || rule_ip@ == ip@) && (is_wildcard(rule_port@) || rule_port@
            == port@)),
{
    (is_any(rule_ip.as_str()) || *rule_ip == *ip) && (is_any(rule_port.as_str()) || *rule_port
        == *port)
}

fn matches_text(rule: &SnortRule, protocol: TransportProtocol, text: &PacketText) -> (b: bool)
    ensures
        forall|h: DecodedHeaders|
            text.describes(h) && h.protocol == protocol ==> b == #[trigger] is_match(rule@, h),
{
    if !(is_any(rule.protocol.as_str()) || eq_ignore_ascii_case(
        rule.protocol.as_str(),
        protocol.as_str(),
    )) {
        return false;
    }
    match rule.direction {
        Direction::Forward => {
            endpoint_fits(&rule.src_ip, &rule.src_port, &text.src_ip, &text.src_port)
                && endpoint_fits(&rule.dst_ip, &rule.dst_port, &text.dst_ip, &text.dst_port)
        },
        Direction::Reverse => {
            endpoint_fits(&rule.src_ip, &rule.src_port, &text.dst_ip, &text.dst_port)
                && endpoint_fits(&rule.dst_ip, &rule.dst_port, &text.src_ip, &text.src_port)
        },
        Direction::Bidirectional => {
            (endpoint_fits(&rule.src_ip, &rule.src_port, &text.src_ip, &text.src_port)
                && endpoint_fits(&rule.dst_ip, &rule.dst_port, &text.dst_ip, &text.dst_port))
                || (endpoint_fits(&rule.src_ip, &rule.src_port, &text.dst_ip, &text.dst_port)
                && endpoint_fits(&rule.dst_ip, &rule.dst_port, &text.src_ip, &text.src_port))
        },
    }
}

/// Decides whether one rule matches the headers of a packet.
pub fn rule_matches(rule: &SnortRule, headers: &DecodedHeaders) -> (b: bool)
    ensures
        b == is_match(rule@, *headers),
{
    let text = PacketText::of(headers);
    matches_text(rule, headers.protocol, &text)
}

/// Holds a packet against every rule and reports each rule that matches, in the order of
/// the rules. A packet may match several rules; none of them hides another.
pub fn match_all(headers: &DecodedHeaders, rules: &[SnortRule]) -> (events: Vec<MatchEvent>)
    ensures
        events@ == match_events(*headers, rule_models(rules@)),
{
    let text = PacketText::of(headers);
    let ghost models = rule_models(rules@);
    let ghost pred = |rule: RuleModel| is_match(rule, *headers);
    let ghost event = |rule: RuleModel| event_of(rule, *headers);
    let mut events: Vec<MatchEvent> = Vec::new();
    let mut i: usize = 0;
    proof {
        reveal(Seq::filter);
    }
    while i < rules.len()
        invariant
            i <= rules@.len(),
            models == rule_models(rules@),
            pred == |rule: RuleModel| is_match(rule, *headers),
            event == |rule: RuleModel| event_of(rule, *headers),
            text.describes(*headers),
            events@ == models.take(i as int).filter(pred).map_values(event),
        decreases rules@.len() - i,
    {
        let rule = &rules[i];
        proof {
            let done = models.take(i as int);
            assert(models.take(i + 1) == done.push(rule@));
            Seq::lemma_filter_push(done, rule@, pred);
        }
        if matches_text(rule, headers.protocol, &text) {
            events.push(
                MatchEvent {
                    action: rule.action,
                    src_ip: headers.src_ip,
                    src_port: headers.src_port,
                    dst_ip: headers.dst_ip,
                    dst_port: headers.dst_port,
                },
            );
        }
        i += 1;
    }
    assert(models.take(i as int) == models);
    events
}

/// The rule that the line `alert tcp any any -> any any` stands for.
pub open spec fn alert_all_tcp() -> RuleModel {
    RuleModel {
        action: RuleAction::Alert,
        protocol: "tcp"@,
        src_ip: "any"@,
        src_port: "any"@,
        direction: Direction::Forward,
        dst_ip: "any"@,
        dst_port: "any"@,
    }
}

/// The rule that the line `drop tcp any any -> any 80` stands for.
pub open spec fn drop_tcp_to_80() -> RuleModel {
    RuleModel {
        action: RuleAction::Drop,
        protocol: "tcp"@,
        src_ip: "any"@,
        src_port: "any"@,
        direction: Direction::Forward,
        dst_ip: "any"@,
        dst_port: "80"@,
    }
}

proof fn lemma_seven_laid_out(gaps: Seq<Seq<char>>, t: Seq<Seq<char>>)
    requires
        gaps.len() == 8,
        t.len() == 7,
    ensures
        laid_out(gaps, t) == gaps[0] + t[0] + gaps[1] + t[1] + gaps[2] + t[2] + gaps[3] + t[3]
            + gaps[4] + t[4] + gaps[5] + t[5] + gaps[6] + t[6] + gaps[7],
{
    let g1 = gaps.drop_first();
    let g2 = g1.drop_first();
    let g3 = g2.drop_first();
    let g4 = g3.drop_first();
    let g5 = g4.drop_first();
    let g6 = g5.drop_first();
    let g7 = g6.drop_first();
    let t1 = t.drop_first();
    let t2 = t1.drop_first();
    let t3 = t2.drop_first();
    let t4 = t3.drop_first();
    let t5 = t4.drop_first();
    let t6 = t5.drop_first();
    let t7 = t6.drop_first();
    assert(laid_out(g7, t7) == gaps[7]);
    assert(laid_out(g6, t6) == gaps[6] + t[6] + laid_out(g7, t7));
    assert(laid_out(g5, t5) == gaps[5] + t[5] + laid_out(g6, t6));
    assert(laid_out(g4, t4) == gaps[4] + t[4] + laid_out(g5, t5));
    assert(laid_out(g3, t3) == gaps[3] + t[3] + laid_out(g4, t4));
    assert(laid_out(g2, t2) == gaps[2] + t[2] + laid_out(g3, t3));
    assert(laid_out(g1, t1) == gaps[1] + t[1] + laid_out(g2, t2));
    assert(laid_out(gaps, t) == gaps[0] + t[0] + laid_out(g1, t1));
}

/// The two lines are the two rules.
pub proof fn lemma_example_rules()
    ensures
        parse_rule("alert tcp any any -> any any"@) == Ok::<RuleModel, ParseError>(alert_all_tcp()),
        parse_rule("drop tcp any any -> any 80"@) == Ok::<RuleModel, ParseError>(drop_tcp_to_80()),
{
    reveal_strlit("alert tcp any any -> any any");
    reveal_strlit("drop tcp any any -> any 80");
    reveal_strlit("alert");
    reveal_strlit("drop");
    reveal_strlit("pass");
    reveal_strlit("tcp");
    reveal_strlit("any");
    reveal_strlit("->");
    reveal_strlit(">");
    reveal_strlit("80");
    let gaps = single_spaces(7);
    let a = seq!["alert"@, "tcp"@, "any"@, "any"@, "->"@, "any"@, "any"@];
    let d = seq!["drop"@, "tcp"@, "any"@, "any"@, "->"@, "any"@, "80"@];
    lemma_seven_laid_out(gaps, a);
    lemma_seven_laid_out(gaps, d);
    assert("alert tcp any any -> any any"@ =~= laid_out(gaps, a));
    assert("drop tcp any any -> any 80"@ =~= laid_out(gaps, d));
    lemma_single_spaces(a);
    lemma_single_spaces(d);
    law_layout_is_immaterial(gaps, a);
    law_layout_is_immaterial(gaps, d);
}

/// The rule `alert tcp any any -> any any` matches every TCP packet, whatever its
/// endpoints are, and no UDP packet.
pub proof fn law_alert_all_tcp(h: DecodedHeaders)
    ensures
        parse_rule("alert tcp any any -> any any"@) == Ok::<RuleModel, ParseError>(alert_all_tcp()),
        is_match(alert_all_tcp(), h) <==> h.protocol == TransportProtocol::Tcp,
{
    lemma_example_rules();
    reveal_strlit("tcp");
    reveal_strlit("udp");
    reveal_strlit("any");
    assert("tcp"@[0] == 't' && "udp"@[0] == 'u');
}

/// The rule `drop tcp any any -> any 80` matches a TCP packet if and only if its
/// destination port is 80, and no UDP packet.
pub proof fn law_drop_tcp_to_80(h: DecodedHeaders)
    ensures
        parse_rule("drop tcp any any -> any 80"@) == Ok::<RuleModel, ParseError>(drop_tcp_to_80()),
        is_match(drop_tcp_to_80(), h) <==> h.protocol == TransportProtocol::Tcp && h.dst_port
            == 80,
{
    lemma_example_rules();
    reveal_strlit("tcp");
    reveal_strlit("udp");
    reveal_strlit("any");
    reveal_strlit("80");
    assert("tcp"@[0] == 't' && "udp"@[0] == 'u');
    assert("80"@ =~= decimal(80)) by {
        reveal_with_fuel(decimal, 2);
    }
    if decimal(h.dst_port as nat) == "80"@ {
        lemma_decimal_injective(h.dst_port as nat, 80);
    }
}

/// Under the rule set of the two rules above, a TCP packet to port 80 gives two events,
/// the alert before the drop, and a UDP packet gives none.
pub proof fn law_both_rules(h: DecodedHeaders)
    ensures
        h.protocol == TransportProtocol::Tcp && h.dst_port == 80 ==> match_events(
            h,
            seq![alert_all_tcp(), drop_tcp_to_80()],
        ) == seq![event_of(alert_all_tcp(), h), event_of(drop_tcp_to_80(), h)],
        h.protocol == TransportProtocol::Udp ==> match_events(
            h,
            seq![alert_all_tcp(), drop_tcp_to_80()],
        ) == Seq::<MatchEvent>::empty(),
{
    law_alert_all_tcp(h);
    law_drop_tcp_to_80(h);
    let pred = |rule: RuleModel| is_match(rule, h);
    let none = Seq::<RuleModel>::empty();
    let one = none.push(alert_all_tcp());
    let both = one.push(drop_tcp_to_80());
    assert(both == seq![alert_all_tcp(), drop_tcp_to_80()]);
    assert(none.filter(pred) == none) by {
        reveal(Seq::filter);
    }
    Seq::lemma_filter_push(none, alert_all_tcp(), pred);
    Seq::lemma_filter_push(one, drop_tcp_to_80(), pred);
}

} // verus!
