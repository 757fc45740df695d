//! The rule language: one rule per line, seven tokens separated by whitespace.
//!
//! ```text
//! action protocol src_ip src_port direction dst_ip dst_port
//! ```
use crate::text::{chars_of, is_space, is_whitespace, push_chars, same_text};
use vstd::prelude::*;

verus! {

/// What a rule asks to be done with the traffic it matches.
#[derive(Debug, Clone, Copy, PartialEq, Eq, Structural)]
pub enum RuleAction {
    Alert,
    Pass,
    Drop,
}

/// How the two endpoints of a rule are laid over the two endpoints of a packet.
#[derive(Debug, Clone, Copy, PartialEq, Eq, Structural)]
pub enum Direction {
    /// `->`: the rule's source is the packet's source.
    Forward,
    /// `<-`: the rule's source is the packet's destination.
    Reverse,
    /// `<>`: either way.
    Bidirectional,
}

/// Why a line is not a rule.
#[derive(Debug, Clone, Copy, PartialEq, Eq, Structural)]
pub enum ParseError {
    /// Fewer than seven tokens, or no direction where one belongs.
    InvalidFormat,
    /// The first token is none of the three actions.
    InvalidAction,
}

/// One filter entry. The protocol, addresses and ports are kept as they were written.
#[derive(Debug, Clone)]
pub struct SnortRule {
    pub action: RuleAction,
    pub protocol: String,
    pub src_ip: String,
    pub src_port: String,
    pub direction: Direction,
    pub dst_ip: String,
    pub dst_port: String,
}

/// A rule as a mathematical value: each text field is its sequence of characters.
pub struct RuleModel {
    pub action: RuleAction,
    pub protocol: Seq<char>,
    pub src_ip: Seq<char>,
    pub src_port: Seq<char>,
    pub direction: Direction,
    pub dst_ip: Seq<char>,
    pub dst_port: Seq<char>,
}

impl RuleModel {
    /// Whether every text field is a token: not empty, and free of whitespace. Every rule
    /// that was read from a line is so.
    pub open spec fn well_formed(self) -> bool {
        &&& is_token(self.protocol)
        &&& is_token(self.src_ip)
        &&& is_token(self.src_port)
        &&& is_token(self.dst_ip)
        &&& is_token(self.dst_port)
    }
}

impl View for SnortRule {
    type V = RuleModel;

    open spec fn view(&self) -> RuleModel {
        RuleModel {
            action: self.action,
            protocol: self.protocol@,
            src_ip: self.src_ip@,
            src_port: self.src_port@,
            direction: self.direction,
            dst_ip: self.dst_ip@,
            dst_port: self.dst_port@,
        }
    }
}

impl RuleAction {
    /// The word that stands for the action in a rule.
    pub open spec fn keyword(self) -> Seq<char> {
        match self {
            RuleAction::Alert => "alert"@,
            RuleAction::Pass => "pass"@,
            RuleAction::Drop => "drop"@,
        }
    }

    /// The word that stands for the action in a rule.
    pub fn as_str(&self) -> (s: &'static str)
        ensures
            s@ == self.keyword(),
    {
        match self {
            RuleAction::Alert => "alert",
            RuleAction::Pass => "pass",
            RuleAction::Drop => "drop",
        }
    }

    /// The action that a token names, if any.
    pub fn from_keyword(token: &str) -> (action: Option<RuleAction>)
        ensures
            action == action_of(token@),
    {
        if same_text(token, "alert") {
            Some(RuleAction::Alert)
        } else if same_text(token, "pass") {
            Some(RuleAction::Pass)
        } else if same_text(token, "drop") {
            Some(RuleAction::Drop)
        } else {
            None
        }
    }
}

impl Direction {
    /// The canonical operator of the direction.
    pub open spec fn symbol(self) -> Seq<char> {
        match self {
            Direction::Forward => "->"@,
            Direction::Reverse => "<-"@,
            Direction::Bidirectional => "<>"@,
        }
    }

    /// The canonical operator of the direction.
    pub fn as_str(&self) -> (s: &'static str)
        ensures
            s@ == self.symbol(),
    {
        match self {
            Direction::Forward => "->",
            Direction::Reverse => "<-",
            Direction::Bidirectional => "<>",
        }
    }

    /// The direction that a token names, if any.
    pub fn from_symbol(token: &str) -> (direction: Option<Direction>)
        ensures
            direction == direction_of(token@),
    {
        if same_text(token, "->") || same_text(token, ">") {
            Some(Direction::Forward)
        } else if same_text(token, "<-") || same_text(token, "<") {
            Some(Direction::Reverse)
        } else if same_text(token, "<>") {
            Some(Direction::Bidirectional)
        } else {
            None
        }
    }
}

impl ParseError {
    /// The message shown for the error.
    pub open spec fn text(self) -> Seq<char> {
        match self {
            ParseError::InvalidFormat => "Invalid rule format"@,
            ParseError::InvalidAction => "Invalid rule action"@,
        }
    }

    /// The message shown for the error.
    pub fn message(&self) -> (s: &'static str)
        ensures
            s@ == self.text(),
    {
        match self {
            ParseError::InvalidFormat => "Invalid rule format",
            ParseError::InvalidAction => "Invalid rule action",
        }
    }
}

/// The length of the run of non-whitespace characters that `s` starts with.
pub open spec fn token_len(s: Seq<char>) -> nat
    decreases s.len(),
{
    if s.len() == 0 || is_whitespace(s[0]) {
        0
    } else {
        1 + token_len(s.drop_first())
    }
}

/// The tokens of a line: its maximal runs of non-whitespace characters, in order.
pub open spec fn tokens(s: Seq<char>) -> Seq<Seq<char>>
    decreases s.len(),
    via tokens_decreases
{
    if s.len() == 0 {
        Seq::empty()
    } else if is_whitespace(s[0]) {
        tokens(s.drop_first())
    } else {
        let n = token_len(s);
        seq![s.take(n as int)] + tokens(s.skip(n as int))
    }
}

#[via_fn]
proof fn tokens_decreases(s: Seq<char>) {
    lemma_token_len_bounds(s);
}

/// A leading token is no longer than the text, and not empty where the text starts with
/// a character that is no whitespace.
pub proof fn lemma_token_len_bounds(s: Seq<char>)
    ensures
        token_len(s) <= s.len(),
        s.len() > 0 && !is_whitespace(s[0]) ==> token_len(s) >= 1,
    decreases s.len(),
{
    if s.len() > 0 && !is_whitespace(s[0]) {
        lemma_token_len_bounds(s.drop_first());
    }
}

/// A token: a text that is not empty and holds no whitespace.
pub open spec fn is_token(t: Seq<char>) -> bool {
    &&& t.len() > 0
    &&& forall|i: int| 0 <= i < t.len() ==> !is_whitespace(#[trigger] t[i])
}

/// The characters of a leading token are no whitespace.
pub proof fn lemma_token_len_run(s: Seq<char>, i: int)
    requires
        0 <= i < token_len(s),
    ensures
        i < s.len(),
        !is_whitespace(s[i]),
    decreases s.len(),
{
    if i > 0 {
        lemma_token_len_run(s.drop_first(), i - 1);
    }
}

/// Every token of a line is a token.
pub proof fn lemma_tokens_are_tokens(s: Seq<char>)
    ensures
        forall|k: int| 0 <= k < tokens(s).len() ==> is_token(#[trigger] tokens(s)[k]),
    decreases s.len(),
{
    if s.len() == 0 {
    } else if is_whitespace(s[0]) {
        lemma_tokens_are_tokens(s.drop_first());
        assert(tokens(s) == tokens(s.drop_first()));
    } else {
        let n = token_len(s);
        let first = s.take(n as int);
        let rest = tokens(s.skip(n as int));
        lemma_token_len_bounds(s);
        lemma_tokens_are_tokens(s.skip(n as int));
        assert forall|i: int| 0 <= i < n implies !is_whitespace(#[trigger] first[i]) by {
            lemma_token_len_run(s, i);
        }
        assert(tokens(s) == seq![first] + rest);
        assert forall|k: int| 0 <= k < tokens(s).len() implies is_token(
            #[trigger] tokens(s)[k],
        ) by {
            if k > 0 {
                assert(tokens(s)[k] == rest[k - 1]);
            }
        }
    }
}

/// The action that a token names, if any. The keywords are case-sensitive.
pub open spec fn action_of(token: Seq<char>) -> Option<RuleAction> {
    if token == "alert"@ {
        Some(RuleAction::Alert)
    } else if token == "pass"@ {
        Some(RuleAction::Pass)
    } else if token == "drop"@ {
        Some(RuleAction::Drop)
    } else {
        None
    }
}

/// The direction that a token names, if any. Besides the three canonical operators the
/// bare `>` and `<` are read as `->` and `<-`.
pub open spec fn direction_of(token: Seq<char>) -> Option<Direction> {
    if token == "->"@ || token == ">"@ {
        Some(Direction::Forward)
    } else if token == "<-"@ || token == "<"@ {
        Some(Direction::Reverse)
    } else if token == "<>"@ {
        Some(Direction::Bidirectional)
    } else {
        None
    }
}

/// The rule that a sequence of tokens stands for. Tokens after the seventh are ignored.
pub open spec fn rule_of_tokens(t: Seq<Seq<char>>) -> Result<RuleModel, ParseError> {
    if t.len() < 7 {
        Err(ParseError::InvalidFormat)
    } else if action_of(t[0]) is None {
        Err(ParseError::InvalidAction)
    } else if direction_of(t[4]) is None {
        Err(ParseError::InvalidFormat)
    } else {
        Ok(
            RuleModel {
                action: action_of(t[0])->0,
                protocol: t[1],
                src_ip: t[2],
                src_port: t[3],
                direction: direction_of(t[4])->0,
                dst_ip: t[5],
                dst_port: t[6],
            },
        )
    }
}

/// The rule that a line of text stands for.
pub open spec fn parse_rule(line: Seq<char>) -> Result<RuleModel, ParseError> {
    rule_of_tokens(tokens(line))
}

/// A token that is followed by whitespace, or by nothing, is the first token of the text,
/// and the tokens of the rest follow it.
pub proof fn lemma_tokens_first(t: Seq<char>, rest: Seq<char>)
    requires
        t.len() > 0,
        forall|i: int| 0 <= i < t.len() ==> !is_whitespace(t[i]),
        rest.len() == 0 || is_whitespace(rest[0]),
    ensures
        tokens(t + rest) == seq![t] + tokens(rest),
{
    let s = t + rest;
    lemma_token_len_prefix(t, rest);
    assert(s.take(t.len() as int) == t);
    assert(s.skip(t.len() as int) == rest);
}

proof fn lemma_token_len_prefix(t: Seq<char>, rest: Seq<char>)
    requires
        forall|i: int| 0 <= i < t.len() ==> !is_whitespace(t[i]),
        rest.len() == 0 || is_whitespace(rest[0]),
    ensures
        token_len(t + rest) == t.len(),
    decreases t.len(),
{
    if t.len() > 0 {
        assert((t + rest).drop_first() == t.drop_first() + rest);
        lemma_token_len_prefix(t.drop_first(), rest);
    }
}

/// Splits a line into its tokens.
pub fn tokenize(line: &str) -> (out: Vec<String>)
    ensures
        out.deep_view() == tokens(line@),
{
    let chars = chars_of(line);
    let n = chars.len();
    let ghost s = chars@;
    let mut out: Vec<String> = Vec::new();
    let mut i: usize = 0;
    assert(s.skip(0) == s);
    while i < n
        invariant
            s == chars@,
            n == s.len(),
            i <= n,
            tokens(s) == out.deep_view() + tokens(s.skip(i as int)),
        decreases n - i,
    {
        if is_space(chars[i]) {
            assert(s.skip(i as int).drop_first() == s.skip(i + 1));
            i += 1;
        } else {
            let start = i;
            let mut j = i;
            while j < n && !is_space(chars[j])
                invariant
                    s == chars@,
                    n == s.len(),
                    start <= j <= n,
                    forall|k: int| start <= k < j ==> !is_whitespace(s[k]),
                decreases n - j,
            {
                j += 1;
            }
            let mut token = String::new();
            push_chars(&mut token, chars.as_slice(), start, j);
            proof {
                let t = s.subrange(start as int, j as int);
                let rest = s.skip(j as int);
                assert(s.skip(start as int) == t + rest);
                lemma_tokens_first(t, rest);
            }
            let ghost before = out.deep_view();
            out.push(token);
            assert(out.deep_view() == before.push(token@));
            i = j;
        }
    }
    out
}

/// The rule that already separated tokens stand for.
pub fn rule_from_tokens(tokens: &Vec<String>) -> (r: Result<SnortRule, ParseError>)
    ensures
        match r {
            Ok(rule) => rule_of_tokens(tokens.deep_view()) == Ok::<RuleModel, ParseError>(rule@),
            Err(e) => rule_of_tokens(tokens.deep_view()) == Err::<RuleModel, ParseError>(e),
        },
{
    if tokens.len() < 7 {
        return Err(ParseError::InvalidFormat);
    }
    let action = match RuleAction::from_keyword(tokens[0].as_str()) {
        Some(action) => action,
        None => {
            return Err(ParseError::InvalidAction);
        },
    };
    let direction = match Direction::from_symbol(tokens[4].as_str()) {
        Some(direction) => direction,
        None => {
            return Err(ParseError::InvalidFormat);
        },
    };
    Ok(
        SnortRule {
            action,
            protocol: tokens[1].clone(),
            src_ip: tokens[2].clone(),
            src_port: tokens[3].clone(),
            direction,
            dst_ip: tokens[5].clone(),
            dst_port: tokens[6].clone(),
        },
    )
}

/// Reads one line of rule text.
///
/// The line is cut into tokens at whitespace. With fewer than seven tokens it is
/// `InvalidFormat`; else, with a first token that is no action, `InvalidAction`; else, with
/// a fifth token that is no direction, `InvalidFormat`; else it is the rule made of the
/// first seven tokens.
pub fn parse_snort_rule(rule_str: &str) -> (r: Result<SnortRule, ParseError>)
    ensures
        match r {
            Ok(rule) => parse_rule(rule_str@) == Ok::<RuleModel, ParseError>(rule@)
                && rule@.well_formed(),
            Err(e) => parse_rule(rule_str@) == Err::<RuleModel, ParseError>(e),
        },
{
    let tokens = tokenize(rule_str);
    proof {
        lemma_tokens_are_tokens(rule_str@);
    }
    rule_from_tokens(&tokens)
}

/// A line that was left out of a rule set, by its position among the lines, and why.
#[derive(Debug, Clone, Copy, PartialEq, Eq, Structural)]
pub struct RejectedLine {
    pub line: usize,
    pub error: ParseError,
}

/// What a batch of lines yields: the rules of the lines that are rules, and the others.
#[derive(Debug)]
pub struct RuleSet {
    pub rules: Vec<SnortRule>,
    pub rejected: Vec<RejectedLine>,
}

/// The models of a sequence of rules.
pub open spec fn rule_models(rules: Seq<SnortRule>) -> Seq<RuleModel> {
    rules.map_values(|r: SnortRule| r@)
}

/// The texts of a sequence of lines.
pub open spec fn line_texts(lines: Seq<&str>) -> Seq<Seq<char>> {
    lines.map_values(|l: &str| l@)
}

/// The rules among `lines`, in the order of the lines.
pub open spec fn accepted_rules(lines: Seq<Seq<char>>) -> Seq<RuleModel>
    decreases lines.len(),
{
    if lines.len() == 0 {
        Seq::empty()
    } else {
        let before = accepted_rules(lines.drop_last());
        match parse_rule(lines.last()) {
            Ok(rule) => before.push(rule),
            Err(_) => before,
        }
    }
}

/// The lines among `lines` that are no rules, in the order of the lines.
pub open spec fn rejected_lines(lines: Seq<Seq<char>>) -> Seq<RejectedLine>
    decreases lines.len(),
{
    if lines.len() == 0 {
        Seq::empty()
    } else {
        let before = rejected_lines(lines.drop_last());
        match parse_rule(lines.last()) {
            Ok(_) => before,
            Err(error) => before.push(RejectedLine { line: (lines.len() - 1) as usize, error }),
        }
    }
}

/// Builds a rule set from a batch of lines. A line that is no rule is recorded and
/// skipped: it never keeps the lines after it from being read.
pub fn load_rules(lines: &[&str]) -> (set: RuleSet)
    ensures
        rule_models(set.rules@) == accepted_rules(line_texts(lines@)),
        set.rejected@ == rejected_lines(line_texts(lines@)),
{
    let ghost texts = line_texts(lines@);
    let mut rules: Vec<SnortRule> = Vec::new();
    let mut rejected: Vec<RejectedLine> = Vec::new();
    let mut i: usize = 0;
    while i < lines.len()
        invariant
            i <= lines@.len(),
            texts == line_texts(lines@),
            rule_models(rules@) == accepted_rules(texts.take(i as int)),
            rejected@ == rejected_lines(texts.take(i as int)),
        decreases lines@.len() - i,
    {
        assert(texts.take(i + 1).drop_last() == texts.take(i as int));
        match parse_snort_rule(lines[i]) {
            Ok(rule) => {
                rules.push(rule);
            },
            Err(error) => {
                rejected.push(RejectedLine { line: i, error });
            },
        }
        i += 1;
    }
    assert(texts.take(i as int) == texts);
    RuleSet { rules, rejected }
}

/// A gap: a text of whitespace only, which may be empty.
pub open spec fn is_gap(g: Seq<char>) -> bool {
    forall|i: int| 0 <= i < g.len() ==> is_whitespace(#[trigger] g[i])
}

/// The line that holds the tokens `t` with the gaps around and between them: a gap, then
/// each token with the gap that follows it.
pub open spec fn laid_out(gaps: Seq<Seq<char>>, t: Seq<Seq<char>>) -> Seq<char>
    recommends
        gaps.len() == t.len() + 1,
    decreases t.len(),
{
    if t.len() == 0 {
        gaps[0]
    } else {
        gaps[0] + t[0] + laid_out(gaps.drop_first(), t.drop_first())
    }
}

/// Whether `gaps` and `t` are the gaps and the tokens of a line: there is a gap before
/// and after every token, and the gap between two tokens is not empty.
pub open spec fn is_layout(gaps: Seq<Seq<char>>, t: Seq<Seq<char>>) -> bool {
    &&& gaps.len() == t.len() + 1
    &&& forall|i: int| 0 <= i < gaps.len() ==> is_gap(#[trigger] gaps[i])
    &&& forall|i: int| 0 < i < t.len() ==> (#[trigger] gaps[i]).len() > 0
    &&& forall|i: int| 0 <= i < t.len() ==> is_token(#[trigger] t[i])
}

/// Whitespace in front of a text adds no token.
pub proof fn lemma_tokens_after_gap(g: Seq<char>, s: Seq<char>)
    requires
        is_gap(g),
    ensures
        tokens(g + s) == tokens(s),
    decreases g.len(),
{
    if g.len() == 0 {
        assert(g + s == s);
    } else {
        assert((g + s)[0] == g[0]);
        assert((g + s).drop_first() == g.drop_first() + s);
        lemma_tokens_after_gap(g.drop_first(), s);
    }
}

/// How a line is laid out is immaterial: whatever whitespace stands before, between and
/// after its tokens, cutting the line gives the tokens back, and the line is read as its
/// tokens are.
pub proof fn law_layout_is_immaterial(gaps: Seq<Seq<char>>, t: Seq<Seq<char>>)
    requires
        is_layout(gaps, t),
    ensures
        tokens(laid_out(gaps, t)) == t,
        parse_rule(laid_out(gaps, t)) == rule_of_tokens(t),
    decreases t.len(),
{
    if t.len() == 0 {
        lemma_tokens_after_gap(gaps[0], Seq::empty());
        assert(gaps[0] + Seq::<char>::empty() == gaps[0]);
    } else {
        let later_gaps = gaps.drop_first();
        let later = t.drop_first();
        let rest = laid_out(later_gaps, later);
        law_layout_is_immaterial(later_gaps, later);
        assert(rest.len() == 0 || is_whitespace(rest[0])) by {
            assert(is_gap(gaps[1]));
            if later.len() > 0 {
                assert(rest[0] == gaps[1][0]);
            }
        }
        assert(is_token(t[0]));
        lemma_tokens_first(t[0], rest);
        lemma_tokens_after_gap(gaps[0], t[0] + rest);
        assert(laid_out(gaps, t) == gaps[0] + (t[0] + rest));
        assert(seq![t[0]] + later == t);
    }
}

/// The gaps of a line of `n` tokens that has nothing before its first token, a single
/// space between neighbours, and nothing after its last token.
pub open spec fn single_spaces(n: nat) -> Seq<Seq<char>> {
    Seq::new(
        n + 1,
        |i: int|
            if 0 < i < n {
                seq![' ']
            } else {
                Seq::empty()
            },
    )
}

/// Tokens with single spaces between them are a layout.
pub proof fn lemma_single_spaces(t: Seq<Seq<char>>)
    requires
        forall|i: int| 0 <= i < t.len() ==> is_token(#[trigger] t[i]),
    ensures
        is_layout(single_spaces(t.len()), t),
{
    assert(is_whitespace(' '));
}

/// The three action keywords are three different texts, and so are the three canonical
/// direction operators: each names one action or direction, and is its canonical form.
pub proof fn lemma_keywords()
    ensures
        forall|a: RuleAction| action_of(#[trigger] a.keyword()) == Some(a),
        forall|d: Direction| direction_of(#[trigger] d.symbol()) == Some(d),
{
    reveal_strlit("alert");
    reveal_strlit("pass");
    reveal_strlit("drop");
    reveal_strlit("->");
    reveal_strlit("<-");
    reveal_strlit("<>");
    reveal_strlit(">");
    reveal_strlit("<");
    assert("pass"@[0] != "drop"@[0]);
    assert("->"@[0] != "<-"@[0]);
    assert("<-"@[1] != "<>"@[1]);
    assert("->"@.len() == 2 && "<-"@.len() == 2 && "<>"@.len() == 2);
}

/// A line of seven or more tokens, the first an action keyword and the fifth a canonical
/// direction operator, is a rule, and every field of the rule is the token at its place,
/// as it was written. This holds however the line is laid out; with [`single_spaces`] for
/// the gaps it is the line `action protocol src_ip src_port direction dst_ip dst_port`.
pub proof fn law_well_formed_line_parses(gaps: Seq<Seq<char>>, t: Seq<Seq<char>>)
    requires
        is_layout(gaps, t),
        t.len() >= 7,
        t[0] == "alert"@ || t[0] == "pass"@ || t[0] == "drop"@,
        t[4] == "->"@ || t[4] == "<-"@ || t[4] == "<>"@,
    ensures
        parse_rule(laid_out(gaps, t)) is Ok,
        parse_rule(laid_out(gaps, t))->Ok_0.action.keyword() == t[0],
        parse_rule(laid_out(gaps, t))->Ok_0.protocol == t[1],
        parse_rule(laid_out(gaps, t))->Ok_0.src_ip == t[2],
        parse_rule(laid_out(gaps, t))->Ok_0.src_port == t[3],
        parse_rule(laid_out(gaps, t))->Ok_0.direction.symbol() == t[4],
        parse_rule(laid_out(gaps, t))->Ok_0.dst_ip == t[5],
        parse_rule(laid_out(gaps, t))->Ok_0.dst_port == t[6],
{
    law_layout_is_immaterial(gaps, t);
    lemma_keywords();
    assert(t[4] == Direction::Forward.symbol() || t[4] == Direction::Reverse.symbol() || t[4]
        == Direction::Bidirectional.symbol());
}

/// A line with fewer than seven tokens is `InvalidFormat`, whatever its tokens are. A line
/// with seven tokens or more whose first token is no action keyword is `InvalidAction`.
pub proof fn law_malformed_line_is_rejected(line: Seq<char>)
    ensures
        tokens(line).len() < 7 ==> parse_rule(line) == Err::<RuleModel, ParseError>(
            ParseError::InvalidFormat,
        ),
        tokens(line).len() >= 7 && action_of(tokens(line)[0]) is None ==> parse_rule(line) == Err::<
            RuleModel,
            ParseError,
        >(ParseError::InvalidAction),
        parse_rule(line) is Ok <==> tokens(line).len() >= 7 && action_of(tokens(line)[0]) is Some
            && direction_of(tokens(line)[4]) is Some,
{
}

} // verus!
