use packet_inspector::rule_parser::{
    load_rules, parse_snort_rule, rule_from_tokens, tokenize, Direction, ParseError, RejectedLine,
    RuleAction,
};
use regex::Regex;

#[test]
fn parses_every_field_verbatim() {
    let rule = parse_snort_rule("alert tcp 10.0.0.1 1234 -> 192.168.1.20 80").unwrap();
    assert_eq!(rule.action, RuleAction::Alert);
    assert_eq!(rule.protocol, "tcp");
    assert_eq!(rule.src_ip, "10.0.0.1");
    assert_eq!(rule.src_port, "1234");
    assert_eq!(rule.direction, Direction::Forward);
    assert_eq!(rule.dst_ip, "192.168.1.20");
    assert_eq!(rule.dst_port, "80");
}

#[test]
fn parses_the_two_example_rules() {
    let first = parse_snort_rule("alert tcp any any -> any any").unwrap();
    assert_eq!(first.action, RuleAction::Alert);
    assert_eq!(
        (
            first.protocol.as_str(),
            first.src_ip.as_str(),
            first.src_port.as_str(),
            first.dst_ip.as_str(),
            first.dst_port.as_str()
        ),
        ("tcp", "any", "any", "any", "any")
    );
    assert_eq!(first.direction, Direction::Forward);
    let second = parse_snort_rule("drop tcp any any -> any 80").unwrap();
    assert_eq!(second.action, RuleAction::Drop);
    assert_eq!(second.dst_port, "80");
    assert_eq!(second.direction, Direction::Forward);
}

#[test]
fn parses_every_action_with_every_direction() {
    let actions = [
        ("alert", RuleAction::Alert),
        ("pass", RuleAction::Pass),
        ("drop", RuleAction::Drop),
    ];
    let directions = [
        ("->", Direction::Forward),
        ("<-", Direction::Reverse),
        ("<>", Direction::Bidirectional),
    ];
    for (word, action) in actions {
        for (symbol, direction) in directions {
            let line = format!("{} udp 1.2.3.4 53 {} 5.6.7.8 5353", word, symbol);
            let rule = parse_snort_rule(&line).unwrap();
            assert_eq!(rule.action, action);
            assert_eq!(rule.action.as_str(), word);
            assert_eq!(rule.protocol, "udp");
            assert_eq!(rule.src_ip, "1.2.3.4");
            assert_eq!(rule.src_port, "53");
            assert_eq!(rule.direction, direction);
            assert_eq!(rule.direction.as_str(), symbol);
            assert_eq!(rule.dst_ip, "5.6.7.8");
            assert_eq!(rule.dst_port, "5353");
        }
    }
}

#[test]
fn bare_arrows_are_read_as_their_canonical_forms() {
    let forward = parse_snort_rule("pass tcp any any > any any").unwrap();
    assert_eq!(forward.direction, Direction::Forward);
    assert_eq!(forward.direction.as_str(), "->");
    let reverse = parse_snort_rule("pass tcp any any < any any").unwrap();
    assert_eq!(reverse.direction, Direction::Reverse);
    assert_eq!(reverse.direction.as_str(), "<-");
}

#[test]
fn fields_are_not_validated() {
    let rule = parse_snort_rule("alert t/c*p not-an-ip 99999 -> [::1] http").unwrap();
    assert_eq!(rule.protocol, "t/c*p");
    assert_eq!(rule.src_ip, "not-an-ip");
    assert_eq!(rule.src_port, "99999");
    assert_eq!(rule.dst_ip, "[::1]");
    assert_eq!(rule.dst_port, "http");
}

#[test]
fn tokens_after_the_seventh_are_ignored() {
    let rule = parse_snort_rule("drop tcp any any -> any 80 (msg:\"web\"; sid:1;)").unwrap();
    assert_eq!(rule.action, RuleAction::Drop);
    assert_eq!(rule.dst_port, "80");
    let rule = parse_snort_rule("drop tcp any any -> any 80 bogus <> more").unwrap();
    assert_eq!(rule.direction, Direction::Forward);
}

#[test]
fn any_whitespace_separates_tokens() {
    let rule = parse_snort_rule("  alert\ttcp   any any\u{a0}->\r\nany \u{3000} 443 \n").unwrap();
    assert_eq!(rule.action, RuleAction::Alert);
    assert_eq!(rule.protocol, "tcp");
    assert_eq!(rule.src_ip, "any");
    assert_eq!(rule.src_port, "any");
    assert_eq!(rule.direction, Direction::Forward);
    assert_eq!(rule.dst_ip, "any");
    assert_eq!(rule.dst_port, "443");
}

#[test]
fn fewer_than_seven_tokens_is_invalid_format() {
    for line in [
        "",
        "   ",
        "alert",
        "alert tcp",
        "alert tcp any any -> any",
        "alert tcp any any ->any any",
        "alerttcp any any -> any any",
    ] {
        assert_eq!(parse_snort_rule(line).unwrap_err(), ParseError::InvalidFormat, "{:?}", line);
    }
}

#[test]
fn fewer_than_seven_tokens_is_invalid_format_whatever_the_first_is() {
    assert_eq!(parse_snort_rule("block tcp").unwrap_err(), ParseError::InvalidFormat);
    assert_eq!(parse_snort_rule("block").unwrap_err(), ParseError::InvalidFormat);
    assert_eq!(
        parse_snort_rule("block tcp any any -> any").unwrap_err(),
        ParseError::InvalidFormat
    );
}

#[test]
fn unknown_action_is_invalid_action() {
    for line in [
        "block tcp any any -> any any",
        "Alert tcp any any -> any any",
        "ALERT tcp any any -> any any",
        "alerts tcp any any -> any any",
        "aler tcp any any -> any any",
        "-> tcp any any alert any any",
        "log tcp any any -> any any extra",
    ] {
        assert_eq!(parse_snort_rule(line).unwrap_err(), ParseError::InvalidAction, "{:?}", line);
    }
}

#[test]
fn unknown_action_comes_before_unknown_direction() {
    assert_eq!(
        parse_snort_rule("block tcp any any => any any").unwrap_err(),
        ParseError::InvalidAction
    );
}

#[test]
fn unknown_direction_is_invalid_format() {
    for line in [
        "alert tcp any any => any any",
        "alert tcp any any -- any any",
        "alert tcp any any <-> any any",
        "alert tcp any any >< any any",
        "alert tcp any any any any any",
        "alert tcp any -> any any any",
    ] {
        assert_eq!(parse_snort_rule(line).unwrap_err(), ParseError::InvalidFormat, "{:?}", line);
    }
}

#[test]
fn error_messages() {
    assert_eq!(ParseError::InvalidFormat.message(), "Invalid rule format");
    assert_eq!(ParseError::InvalidAction.message(), "Invalid rule action");
}

#[test]
fn from_keyword_reads_the_three_actions() {
    assert_eq!(RuleAction::from_keyword("alert"), Some(RuleAction::Alert));
    assert_eq!(RuleAction::from_keyword("pass"), Some(RuleAction::Pass));
    assert_eq!(RuleAction::from_keyword("drop"), Some(RuleAction::Drop));
    for other in ["", "Alert", "DROP", "alert ", "log", "reject", "pas", "passs", "->"] {
        assert_eq!(RuleAction::from_keyword(other), None, "{:?}", other);
    }
}

#[test]
fn from_symbol_reads_the_operators() {
    assert_eq!(Direction::from_symbol("->"), Some(Direction::Forward));
    assert_eq!(Direction::from_symbol(">"), Some(Direction::Forward));
    assert_eq!(Direction::from_symbol("<-"), Some(Direction::Reverse));
    assert_eq!(Direction::from_symbol("<"), Some(Direction::Reverse));
    assert_eq!(Direction::from_symbol("<>"), Some(Direction::Bidirectional));
    for other in ["", "-", "--", "=>", "<->", "><", "->>", "-->", "<<", "any", " ->"] {
        assert_eq!(Direction::from_symbol(other), None, "{:?}", other);
    }
}

#[test]
fn keywords_and_symbols() {
    assert_eq!(RuleAction::Alert.as_str(), "alert");
    assert_eq!(RuleAction::Pass.as_str(), "pass");
    assert_eq!(RuleAction::Drop.as_str(), "drop");
    assert_eq!(Direction::Forward.as_str(), "->");
    assert_eq!(Direction::Reverse.as_str(), "<-");
    assert_eq!(Direction::Bidirectional.as_str(), "<>");
}

#[test]
fn tokenize_cuts_at_whitespace() {
    assert_eq!(tokenize(""), Vec::<String>::new());
    assert_eq!(tokenize(" \t\n"), Vec::<String>::new());
    assert_eq!(tokenize("one"), vec!["one"]);
    assert_eq!(tokenize(" one "), vec!["one"]);
    assert_eq!(tokenize("a b  c\td\ne"), vec!["a", "b", "c", "d", "e"]);
    assert_eq!(tokenize("é\u{2003}->\u{85}ß "), vec!["é", "->", "ß"]);
}

#[test]
fn tokenize_agrees_with_split_whitespace() {
    for line in [
        "alert tcp any any -> any any",
        "  drop   tcp any any -> any 80  ",
        "\talert\tudp\t1.1.1.1\t53\t<>\t2.2.2.2\t53",
        "x",
        "",
        " \u{a0} \u{1680}y\u{2028}z\u{205f}",
    ] {
        let expected: Vec<String> = line.split_whitespace().map(String::from).collect();
        assert_eq!(tokenize(line), expected);
    }
}

#[test]
fn rule_from_tokens_reads_the_first_seven() {
    let tokens: Vec<String> =
        ["pass", "udp", "a", "b", "<>", "c", "d", "e", "f"].iter().map(|t| t.to_string()).collect();
    let rule = rule_from_tokens(&tokens).unwrap();
    assert_eq!(rule.action, RuleAction::Pass);
    assert_eq!(rule.protocol, "udp");
    assert_eq!(rule.src_ip, "a");
    assert_eq!(rule.src_port, "b");
    assert_eq!(rule.direction, Direction::Bidirectional);
    assert_eq!(rule.dst_ip, "c");
    assert_eq!(rule.dst_port, "d");
    let short: Vec<String> = tokens[..6].to_vec();
    assert_eq!(rule_from_tokens(&short).unwrap_err(), ParseError::InvalidFormat);
    assert_eq!(rule_from_tokens(&Vec::new()).unwrap_err(), ParseError::InvalidFormat);
}

#[test]
fn load_rules_keeps_the_rules_and_records_the_rest() {
    let lines = [
        "alert tcp any any -> any any",
        "bogus",
        "drop tcp any any -> any 80",
        "block tcp any any -> any 80",
        "",
        "pass udp 10.0.0.1 53 <> any any",
        "alert tcp any any to any any",
    ];
    let set = load_rules(&lines);
    assert_eq!(set.rules.len(), 3);
    assert_eq!(set.rules[0].action, RuleAction::Alert);
    assert_eq!(set.rules[0].dst_port, "any");
    assert_eq!(set.rules[1].action, RuleAction::Drop);
    assert_eq!(set.rules[1].dst_port, "80");
    assert_eq!(set.rules[2].action, RuleAction::Pass);
    assert_eq!(set.rules[2].direction, Direction::Bidirectional);
    assert_eq!(
        set.rejected,
        vec![
            RejectedLine { line: 1, error: ParseError::InvalidFormat },
            RejectedLine { line: 3, error: ParseError::InvalidAction },
            RejectedLine { line: 4, error: ParseError::InvalidFormat },
            RejectedLine { line: 6, error: ParseError::InvalidFormat },
        ]
    );
}

#[test]
fn load_rules_of_nothing_is_empty() {
    let set = load_rules(&[]);
    assert!(set.rules.is_empty());
    assert!(set.rejected.is_empty());
}

#[test]
fn load_rules_of_the_two_example_rules() {
    let set = load_rules(&["alert tcp any any -> any any", "drop tcp any any -> any 80"]);
    assert_eq!(set.rules.len(), 2);
    assert!(set.rejected.is_empty());
    assert_eq!(set.rules[0].action, RuleAction::Alert);
    assert_eq!(set.rules[1].action, RuleAction::Drop);
}

#[test]
fn agrees_with_the_grammar_as_a_regular_expression() {
    let grammar = Regex::new(
        r"^\s*(alert|pass|drop)\s+(\S+)\s+(\S+)\s+(\S+)\s+(->|<-|<>|>|<)\s+(\S+)\s+(\S+)(?:\s|$)",
    )
    .unwrap();
    let words = [
        "alert", "pass", "drop", "log", "tcp", "any", "80", "->", "<-", "<>", ">", "<", "=>",
        "1.2.3.4",
    ];
    let separators = [" ", "  ", "\t", " \u{a0}"];
    let mut state: u32 = 12345;
    let mut next = |bound: usize| {
        state = state.wrapping_mul(1664525).wrapping_add(1013904223);
        (state >> 16) as usize % bound
    };
    let mut accepted = 0;
    for _ in 0..20000 {
        let count = 5 + next(4);
        let mut line = String::new();
        for position in 0..count {
            if position > 0 {
                line.push_str(separators[next(separators.len())]);
            }
            let word = match position {
                0 if next(4) > 0 => words[next(3)],
                4 if next(4) > 0 => words[7 + next(5)],
                _ => words[next(words.len())],
            };
            line.push_str(word);
        }
        let parsed = parse_snort_rule(&line);
        match grammar.captures(&line) {
            Some(fields) => {
                let rule = parsed.unwrap();
                accepted += 1;
                assert_eq!(rule.action.as_str(), &fields[1]);
                assert_eq!(rule.protocol, &fields[2]);
                assert_eq!(rule.src_ip, &fields[3]);
                assert_eq!(rule.src_port, &fields[4]);
                let symbol = match &fields[5] {
                    ">" => "->",
                    "<" => "<-",
                    other => other,
                };
                assert_eq!(rule.direction.as_str(), symbol);
                assert_eq!(rule.dst_ip, &fields[6]);
                assert_eq!(rule.dst_port, &fields[7]);
            }
            None => assert!(parsed.is_err(), "{:?}", line),
        }
    }
    assert!(accepted > 1000);
}
