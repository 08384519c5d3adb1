//! The lexing engine: a state stack, a queue of pending tokens and the text
//! not yet scanned, advanced one token at a time by the rules of a grammar.

use vstd::prelude::*;
use vstd::string::*;
use vstd::utf8::*;
use std::collections::VecDeque;
use crate::grammar::{name_views, rule_views, targets_known};
pub use crate::grammar::{Machine, MatchAction, Rule, State, StateAction};
use crate::pattern::{captures, regex_captures};
use crate::text::{slice_between, split_at_boundary, split_first_char};
use crate::token::{Token, TokenType};

verus! {

/// A lexer: a source of tokens over one input text.
pub trait Lexer<'t> {}

/// Why a lexer cannot go on.
#[derive(Clone, Copy, Debug, PartialEq, Eq)]
pub enum LexError {
    /// A rule popped the last state off the stack.
    StackUnderflow,
}

/// What a lexer's scan state is: the state stack (top last), the tokens
/// waiting to be handed out (oldest first), and the text not yet scanned.
pub struct LexView {
    pub stack: Seq<Seq<char>>,
    pub queue: Seq<(Seq<char>, TokenType)>,
    pub rest: Seq<char>,
}

/// Tokens as their views.
pub open spec fn token_views<'t>(ts: Seq<Token<'t>>) -> Seq<(Seq<char>, TokenType)> {
    ts.map_values(|t: Token<'t>| t.view())
}

/// The outcome of a step, with the token as its view.
pub open spec fn result_view<'t>(r: Result<Option<Token<'t>>, LexError>) -> Result<
    Option<(Seq<char>, TokenType)>,
    LexError,
> {
    match r {
        Ok(Some(t)) => Ok(Some(t.view())),
        Ok(None) => Ok(None),
        Err(e) => Err(e),
    }
}

/// How many stack changes by matches of the empty string one step may make
/// before it gives up and takes the fallback character.
pub const EMPTY_MATCH_LIMIT: usize = 64;

/// Capture slots that a rule can use at the start of a text: the whole
/// match starts there, every span can be cut out of the text, and a split
/// by groups has one slot per type.
pub open spec fn slots_usable(
    rule: (Seq<char>, MatchAction, StateAction),
    slots: Seq<Option<(usize, usize)>>,
    bytes: Seq<u8>,
) -> bool {
    &&& crate::pattern::spans_well_formed(slots, bytes)
    &&& slots[0]->Some_0.0 == 0
    &&& rule.1 matches MatchAction::ByGroups(types) ==> types@.len() > 0 && slots.len()
        == types@.len() + 1
}

/// Whether a rule matches at the start of a text.
pub open spec fn rule_matches(rule: (Seq<char>, MatchAction, StateAction), text: Seq<char>) -> bool {
    regex_captures(rule.0, text) matches Some(slots) && slots_usable(
        rule,
        slots,
        encode_utf8(text),
    )
}

/// The position of the first rule, from `from` on, that matches at the start of the text.
pub open spec fn first_match(
    rules: Seq<(Seq<char>, MatchAction, StateAction)>,
    text: Seq<char>,
    from: int,
) -> Option<int>
    decreases rules.len() - from,
{
    if from < 0 || from >= rules.len() {
        None
    } else if rule_matches(rules[from], text) {
        Some(from)
    } else {
        first_match(rules, text, from + 1)
    }
}

/// Whether an action can be applied to a stack of this depth: a pop must
/// leave at least one state.
pub open spec fn can_apply(a: StateAction, depth: int) -> bool {
    match a {
        StateAction::Pop => depth > 1,
        StateAction::PopMulti(n) => n < depth,
        _ => true,
    }
}

/// The stack after an action.
pub open spec fn apply_action(a: StateAction, stack: Seq<Seq<char>>) -> Seq<Seq<char>> {
    match a {
        StateAction::Stay => stack,
        StateAction::Pop => stack.drop_last(),
        StateAction::PopMulti(n) => stack.subrange(0, stack.len() - n),
        StateAction::Push(s) => stack.push(s@),
        StateAction::PushMulti(ns) => stack + name_views(ns@),
        StateAction::PushSelf(n) => stack + Seq::new(n as nat, |_i: int| stack.last()),
    }
}

/// The text of a capture slot; a group that took no part gives empty text.
pub open spec fn span_text(bytes: Seq<u8>, slot: Option<(usize, usize)>) -> Seq<char> {
    match slot {
        Some((s, e)) => decode_utf8(bytes.subrange(s as int, e as int)),
        None => seq![],
    }
}

/// One token per group, in group order, typed by the rule's list.
pub open spec fn group_tokens(
    bytes: Seq<u8>,
    slots: Seq<Option<(usize, usize)>>,
    types: Seq<TokenType>,
) -> Seq<(Seq<char>, TokenType)> {
    Seq::new(types.len(), |i: int| (span_text(bytes, slots[i + 1]), types[i]))
}

/// The end, in bytes, of the whole match in a set of capture slots.
pub open spec fn match_end(slots: Seq<Option<(usize, usize)>>) -> int {
    match slots[0] {
        Some((_, e)) => e as int,
        None => 0,
    }
}

/// What a match of a rule does, given its capture slots: the match is
/// consumed, the stack changes, and the match becomes one token, or one per
/// group with all but the first left waiting; a pop of the last state is an
/// error and changes nothing.
pub open spec fn apply_match(
    v: LexView,
    rule: (Seq<char>, MatchAction, StateAction),
    slots: Seq<Option<(usize, usize)>>,
) -> (Result<Option<(Seq<char>, TokenType)>, LexError>, LexView) {
    let bytes = encode_utf8(v.rest);
    let end = match_end(slots);
    if !can_apply(rule.2, v.stack.len() as int) {
        (Err(LexError::StackUnderflow), v)
    } else {
        let stack = apply_action(rule.2, v.stack);
        let rest = decode_utf8(bytes.subrange(end, bytes.len() as int));
        match rule.1 {
            MatchAction::Single(t) => (
                Ok(Some((decode_utf8(bytes.subrange(0, end)), t))),
                LexView { stack, queue: seq![], rest },
            ),
            MatchAction::ByGroups(types) => {
                let toks = group_tokens(bytes, slots, types@);
                (Ok(Some(toks[0])), LexView { stack, queue: toks.drop_first(), rest })
            },
        }
    }
}

/// The fallback: the first character becomes an `Error` token.
pub open spec fn fallback(v: LexView) -> (Result<Option<(Seq<char>, TokenType)>, LexError>, LexView) {
    (Ok(Some((seq![v.rest[0]], TokenType::Error))), LexView { rest: v.rest.drop_first(), ..v })
}

/// The search for a token in a non-empty text with no token waiting. The
/// first rule of the top state that matches fires. A non-empty match is
/// consumed as `apply_match` says. An empty match only changes the stack,
/// and the search goes on from the new top state, up to `fuel` times; past
/// that, and where no rule matches, the fallback character is taken.
pub open spec fn scan(m: Machine, v: LexView, fuel: nat) -> (
    Result<Option<(Seq<char>, TokenType)>, LexError>,
    LexView,
)
    decreases fuel,
{
    let rules = m.rules_of(v.stack.last());
    match first_match(rules, v.rest, 0) {
        Some(i) => {
            let slots = regex_captures(rules[i].0, v.rest)->Some_0;
            if match_end(slots) > 0 {
                apply_match(v, rules[i], slots)
            } else if !can_apply(rules[i].2, v.stack.len() as int) {
                (Err(LexError::StackUnderflow), v)
            } else if fuel == 0 {
                fallback(v)
            } else {
                scan(
                    m,
                    LexView { stack: apply_action(rules[i].2, v.stack), ..v },
                    (fuel - 1) as nat,
                )
            }
        },
        None => fallback(v),
    }
}

/// One step of a lexer over a grammar. A waiting token comes first. Else,
/// with no text left, the lexer is done and nothing changes. Else the
/// search of `scan` finds the token.
pub open spec fn step(m: Machine, v: LexView) -> (
    Result<Option<(Seq<char>, TokenType)>, LexError>,
    LexView,
) {
    if v.queue.len() > 0 {
        (Ok(Some(v.queue[0])), LexView { queue: v.queue.drop_first(), ..v })
    } else if v.rest.len() == 0 {
        (Ok(None), v)
    } else {
        scan(m, v, EMPTY_MATCH_LIMIT as nat)
    }
}

/// Where the scan of a rule list stops: at the first match, or nowhere.
pub proof fn lemma_first_match_at(
    rules: Seq<(Seq<char>, MatchAction, StateAction)>,
    text: Seq<char>,
    from: int,
    i: int,
)
    requires
        0 <= from <= i <= rules.len(),
        forall|j: int| from <= j < i ==> !rule_matches(#[trigger] rules[j], text),
        i < rules.len() ==> rule_matches(rules[i], text),
    ensures
        first_match(rules, text, from) == if i < rules.len() {
            Some(i)
        } else {
            None::<int>
        },
    decreases i - from,
{
    if from < i {
        lemma_first_match_at(rules, text, from + 1, i);
    }
}

/// A lexer driven by a compiled grammar over one input text.
pub struct RegexLexer<'t> {
    machine: &'static Machine,
    states: Vec<&'static str>,
    top: usize,
    queue: VecDeque<Token<'t>>,
    rest: &'t str,
}

impl<'t> Lexer<'t> for RegexLexer<'t> {}

impl<'t> RegexLexer<'t> {
    /// The grammar that drives the lexer.
    pub closed spec fn grammar(&self) -> &'static Machine {
        self.machine
    }

    /// The lexer's scan state.
    pub closed spec fn view(&self) -> LexView {
        LexView {
            stack: name_views(self.states@),
            queue: token_views(self.queue@),
            rest: self.rest@,
        }
    }

    /// A well-formed grammar; a non-empty stack of states that it defines,
    /// with the position of the top one at hand.
    pub closed spec fn wf(&self) -> bool {
        &&& self.machine.wf()
        &&& self.states@.len() > 0
        &&& self.top < self.machine.names@.len()
        &&& self.machine.names()[self.top as int] == self.states@.last()@
        &&& forall|i: int|
            0 <= i < self.states@.len() ==> self.machine.names().contains(
                #[trigger] self.states@[i]@,
            )
    }

    /// A lexer over `text` that starts in state `initstate`, which the
    /// grammar must define.
    pub fn new(machine: &'static Machine, initstate: &'static str, text: &'t str) -> (r: RegexLexer<'t>)
        requires
            machine.wf(),
            machine.names().contains(initstate@),
        ensures
            r.wf(),
            r.grammar() == machine,
            r.view() == (LexView { stack: seq![initstate@], queue: seq![], rest: text@ }),
    {
        let top = match machine.find_state(initstate) {
            Some(i) => i,
            None => 0,
        };
        let l = RegexLexer { machine, states: vec![initstate], top, queue: VecDeque::new(), rest: text };
        proof {
            assert(name_views(l.states@) =~= seq![initstate@]);
            assert(token_views(l.queue@) =~= seq![]);
        }
        l
    }

    /// The position of the state now on top of the stack.
    fn locate_top(&mut self)
        requires
            old(self).machine.wf(),
            old(self).states@.len() > 0,
            forall|i: int|
                0 <= i < old(self).states@.len() ==> old(self).machine.names().contains(
                    #[trigger] old(self).states@[i]@,
                ),
        ensures
            final(self).wf(),
            final(self).machine == old(self).machine,
            final(self).states == old(self).states,
            final(self).queue == old(self).queue,
            final(self).rest == old(self).rest,
    {
        let last = self.states[self.states.len() - 1];
        match self.machine.find_state(last) {
            Some(i) => {
                self.top = i;
            },
            None => {
                assert(self.machine.names().contains(self.states@[self.states@.len() - 1]@));
            },
        }
    }

    /// Applies a state action to the stack.
    fn do_state_action(&mut self, action: StateAction)
        requires
            old(self).wf(),
            can_apply(action, old(self).states@.len() as int),
            targets_known(action, old(self).machine.names()),
        ensures
            final(self).wf(),
            final(self).machine == old(self).machine,
            name_views(final(self).states@) == apply_action(action, name_views(old(self).states@)),
            final(self).queue == old(self).queue,
            final(self).rest == old(self).rest,
    {
        let ghost before = name_views(self.states@);
        match action {
            StateAction::Stay => {},
            StateAction::Pop => {
                self.states.pop();
                proof {
                    assert(name_views(self.states@) =~= before.drop_last());
                }
                self.locate_top();
            },
            StateAction::PopMulti(n) => {
                let mut k: usize = 0;
                while k < n
                    invariant
                        0 <= k <= n,
                        n < before.len(),
                        self.states@.len() == before.len() - k,
                        name_views(self.states@) == before.subrange(0, before.len() - k),
                        self.machine.wf(),
                        forall|i: int|
                            0 <= i < self.states@.len() ==> self.machine.names().contains(
                                #[trigger] self.states@[i]@,
                            ),
                        self.machine == old(self).machine,
                        self.queue == old(self).queue,
                        self.rest == old(self).rest,
                    decreases n - k,
                {
                    let ghost pre = self.states@;
                    self.states.pop();
                    proof {
                        assert(name_views(self.states@) =~= before.subrange(
                            0,
                            before.len() - k - 1,
                        ));
                        assert forall|i: int|
                            0 <= i < self.states@.len() implies self.machine.names().contains(
                            #[trigger] self.states@[i]@,
                        ) by {
                            assert(self.states@[i] == pre[i]);
                        }
                    }
                    k += 1;
                }
                self.locate_top();
            },
            StateAction::PushSelf(n) => {
                let cur = self.states[self.states.len() - 1];
                assert(self.machine.names().contains(self.states@[self.states@.len() - 1]@));
                let mut k: usize = 0;
                while k < n
                    invariant
                        0 <= k <= n,
                        before.len() > 0,
                        cur@ == before.last(),
                        self.machine.names().contains(cur@),
                        self.machine.names()[self.top as int] == cur@,
                        name_views(self.states@) == before + Seq::new(
                            k as nat,
                            |_i: int| before.last(),
                        ),
                        self.wf(),
                        self.machine == old(self).machine,
                        self.queue == old(self).queue,
                        self.rest == old(self).rest,
                    decreases n - k,
                {
                    let ghost pre = self.states@;
                    self.states.push(cur);
                    proof {
                        assert(name_views(self.states@) =~= name_views(pre).push(cur@));
                        assert(name_views(self.states@) =~= before + Seq::new(
                            (k + 1) as nat,
                            |_i: int| before.last(),
                        ));
                        assert(self.states@.last() == cur);
                        assert forall|i: int|
                            0 <= i < self.states@.len() implies self.machine.names().contains(
                            #[trigger] self.states@[i]@,
                        ) by {
                            if i < pre.len() {
                                assert(self.states@[i] == pre[i]);
                            } else {
                                assert(self.states@[i] == cur);
                            }
                        }
                    }
                    k += 1;
                }
            },
            StateAction::Push(to) => {
                let ghost pre = self.states@;
                self.states.push(to);
                proof {
                    assert(name_views(self.states@) =~= before.push(to@));
                    assert forall|i: int|
                        0 <= i < self.states@.len() implies self.machine.names().contains(
                        #[trigger] self.states@[i]@,
                    ) by {
                        if i < pre.len() {
                            assert(self.states@[i] == pre[i]);
                        }
                    }
                }
                self.locate_top();
            },
            StateAction::PushMulti(which) => {
                let mut k: usize = 0;
                while k < which.len()
                    invariant
                        0 <= k <= which@.len(),
                        action == StateAction::PushMulti(which),
                        targets_known(action, self.machine.names()),
                        name_views(self.states@) == before + name_views(which@.take(k as int)),
                        self.machine.wf(),
                        self.states@.len() > 0,
                        forall|i: int|
                            0 <= i < self.states@.len() ==> self.machine.names().contains(
                                #[trigger] self.states@[i]@,
                            ),
                        self.machine == old(self).machine,
                        self.queue == old(self).queue,
                        self.rest == old(self).rest,
                    decreases which@.len() - k,
                {
                    let ghost pre = self.states@;
                    self.states.push(which[k]);
                    proof {
                        assert(name_views(self.states@) =~= name_views(pre).push(which@[k as int]@));
                        assert(which@.take(k + 1) =~= which@.take(k as int).push(which@[k as int]));
                        assert(name_views(which@.take(k + 1)) =~= name_views(which@.take(k as int)).push(which@[k as int]@));
                        assert(name_views(self.states@) =~= before + name_views(
                            which@.take(k + 1),
                        ));
                        assert forall|i: int|
                            0 <= i < self.states@.len() implies self.machine.names().contains(
                            #[trigger] self.states@[i]@,
                        ) by {
                            if i < pre.len() {
                                assert(self.states@[i] == pre[i]);
                            } else {
                                assert(self.states@[i] == which@[k as int]);
                            }
                        }
                    }
                    k += 1;
                }
                proof {
                    assert(which@.take(which@.len() as int) =~= which@);
                }
                self.locate_top();
            },
        }
    }

    /// The state stack, bottom first.
    pub fn stack(&self) -> (r: &Vec<&'static str>)
        ensures
            name_views(r@) == self.view().stack,
    {
        &self.states
    }

    /// The text not yet scanned.
    pub fn remaining(&self) -> (r: &'t str)
        ensures
            r@ == self.view().rest,
    {
        self.rest
    }

    /// Whether the stack is deep enough for an action.
    fn fits(&self, action: StateAction) -> (r: bool)
        ensures
            r == can_apply(action, self.states@.len() as int),
    {
        match action {
            StateAction::Pop => self.states.len() > 1,
            StateAction::PopMulti(n) => n < self.states.len(),
            _ => true,
        }
    }

    /// The first rule of the top state that matches at the cursor, with the
    /// capture slots that its pattern found there.
    fn find_rule(&self) -> (r: Option<(usize, Vec<Option<(usize, usize)>>)>)
        requires
            self.wf(),
        ensures
            self.machine.rules_of(self.view().stack.last()) == rule_views(
                self.machine.states@[self.top as int].0@,
            ),
            ({
                let rules = self.machine.rules_of(self.view().stack.last());
                match r {
                    Some((i, slots)) => {
                        &&& first_match(rules, self.view().rest, 0) == Some(i as int)
                        &&& i < self.machine.states@[self.top as int].0@.len()
                        &&& regex_captures(rules[i as int].0, self.view().rest) == Some(slots@)
                    },
                    None => first_match(rules, self.view().rest, 0) is None,
                }
            }),
    {
        let machine: &'static Machine = self.machine;
        let rules: &'static Vec<Rule> = &machine.states[self.top].0;
        let ghost rv = machine.rules_at(self.top as int);
        proof {
            machine.lemma_index_of(self.top as int);
            assert(name_views(self.states@).last() == self.states@.last()@);
        }
        let mut i: usize = 0;
        while i < rules.len()
            invariant
                0 <= i <= rules@.len(),
                rv == rule_views(rules@),
                rules == &machine.states@[self.top as int].0,
                machine == self.machine,
                self.wf(),
                rv == machine.rules_of(self.view().stack.last()),
                forall|j: int| 0 <= j < i ==> !rule_matches(#[trigger] rv[j], self.rest@),
            decreases rules@.len() - i,
        {
            let rule = &rules[i];
            assert(rv[i as int] == rule.view());
            if let Some(slots) = captures(&rule.0, self.rest) {
                let start: usize = match slots[0] {
                    Some(span) => span.0,
                    None => 1,
                };
                if start == 0 {
                    proof {
                        assert(crate::grammar::rule_fits(rv[i as int]));
                        assert(rule_matches(rv[i as int], self.rest@));
                        lemma_first_match_at(rv, self.rest@, 0, i as int);
                    }
                    return Some((i, slots));
                }
            }
            i += 1;
        }
        proof {
            lemma_first_match_at(rv, self.rest@, 0, rules@.len() as int);
        }
        None
    }

    /// Takes the first character as an `Error` token.
    fn take_fallback(&mut self) -> (r: Result<Option<Token<'t>>, LexError>)
        requires
            old(self).wf(),
            old(self).rest@.len() > 0,
        ensures
            final(self).wf(),
            final(self).grammar() == old(self).grammar(),
            (result_view(r), final(self).view()) == fallback(old(self).view()),
    {
        let (c, rest) = split_first_char(self.rest);
        self.rest = rest;
        Ok(Some(Token { text: c, ttype: TokenType::Error }))
    }

    /// A step with no token waiting and text left: the search that `scan`
    /// describes.
    fn lex_next(&mut self) -> (r: Result<Option<Token<'t>>, LexError>)
        requires
            old(self).wf(),
            old(self).queue@.len() == 0,
            old(self).rest@.len() > 0,
        ensures
            final(self).wf(),
            final(self).grammar() == old(self).grammar(),
            (result_view(r), final(self).view()) == scan(
                *old(self).machine,
                old(self).view(),
                EMPTY_MATCH_LIMIT as nat,
            ),
    {
        let ghost m = *self.machine;
        let ghost target = scan(m, self.view(), EMPTY_MATCH_LIMIT as nat);
        let mut fuel: usize = EMPTY_MATCH_LIMIT;
        loop
            invariant
                self.wf(),
                self.machine == old(self).machine,
                m == *self.machine,
                self.queue@.len() == 0,
                self.rest@.len() > 0,
                target == scan(m, self.view(), fuel as nat),
                target == scan(*old(self).machine, old(self).view(), EMPTY_MATCH_LIMIT as nat),
            decreases fuel,
        {
            match self.find_rule() {
                None => {
                    return self.take_fallback();
                },
                Some((i, slots)) => {
                    let machine: &'static Machine = self.machine;
                    let rule = &machine.states[self.top].0[i];
                    let ghost rules = m.rules_of(self.view().stack.last());
                    assert(rules[i as int] == rule.view());
                    assert(rule_matches(rules[i as int], self.view().rest)) by {
                        lemma_first_match_in_range(rules, self.view().rest, 0);
                    }
                    let end: usize = match slots[0] {
                        Some(span) => span.1,
                        None => 0,
                    };
                    assert(end == match_end(slots@));
                    if end > 0 {
                        proof {
                            assert(targets_known(rule.2, m.names()));
                            assert(token_views(self.queue@) =~= seq![]);
                        }
                        return self.consume_match(rule, &slots);
                    }
                    if !self.fits(rule.2) {
                        return Err(LexError::StackUnderflow);
                    }
                    if fuel == 0 {
                        return self.take_fallback();
                    }
                    proof {
                        assert(targets_known(rule.2, m.names()));
                    }
                    self.do_state_action(rule.2);
                    fuel -= 1;
                },
            }
        }
    }

    /// Consumes a match of `rule` at the cursor, given the capture slots
    /// that its pattern found there: the step that `apply_match` describes.
    pub fn consume_match(&mut self, rule: &Rule, slots: &Vec<Option<(usize, usize)>>) -> (r: Result<
        Option<Token<'t>>,
        LexError,
    >)
        requires
            old(self).wf(),
            old(self).view().queue.len() == 0,
            crate::pattern::spans_well_formed(slots@, encode_utf8(old(self).view().rest)),
            rule.1 matches MatchAction::ByGroups(types) ==> types@.len() > 0 && slots@.len()
                == types@.len() + 1,
            targets_known(rule.2, old(self).grammar().names()),
        ensures
            final(self).wf(),
            final(self).grammar() == old(self).grammar(),
            (result_view(r), final(self).view()) == apply_match(old(self).view(), rule.view(), slots@),
    {
        let ghost v0 = self.view();
        proof {
            assert(token_views(self.queue@) =~= seq![]);
        }
        let end: usize = match slots[0] {
            Some(span) => span.1,
            None => 0,
        };
        let action = rule.2;
        if !self.fits(action) {
            return Err(LexError::StackUnderflow);
        }
        let text: &'t str = self.rest;
        let (matched, rest) = split_at_boundary(text, end);
        self.rest = rest;
        self.do_state_action(action);
        proof {
            encode_utf8_decode_utf8(matched@);
            encode_utf8_decode_utf8(rest@);
        }
        match rule.1 {
            MatchAction::Single(t) => {
                proof {
                    assert(token_views(self.queue@) =~= seq![]);
                    assert(end == match_end(slots@));
                    assert(matched@ == decode_utf8(text.spec_bytes().subrange(0, end as int)));
                    assert(rest@ == decode_utf8(text.spec_bytes().subrange(end as int, text.spec_bytes().len() as int)));
                }
                return Ok(Some(Token { text: matched, ttype: t }));
            },
            MatchAction::ByGroups(types) => {
                let ghost toks = group_tokens(text.spec_bytes(), slots@, types@);
                let mut first: Option<Token<'t>> = None;
                let mut k: usize = 0;
                while k < types.len()
                    invariant
                        0 <= k <= types@.len(),
                        types@.len() > 0,
                        slots@.len() == types@.len() + 1,
                        crate::pattern::spans_well_formed(slots@, text.spec_bytes()),
                        toks == group_tokens(text.spec_bytes(), slots@, types@),
                        self.wf(),
                        self.machine == old(self).machine,
                        k == 0 ==> first is None && token_views(self.queue@) == Seq::<(Seq<char>, TokenType)>::empty(),
                        k > 0 ==> (first matches Some(t) && t.view() == toks[0]),
                        k > 0 ==> token_views(self.queue@) == toks.subrange(1, k as int),
                        name_views(self.states@) == apply_action(action, v0.stack),
                        rule.1 == MatchAction::ByGroups(types),
                        self.rest@ == rest@,
                    decreases types@.len() - k,
                {
                    let piece: &'t str = match slots[k + 1] {
                        Some(span) => slice_between(text, span.0, span.1),
                        None => {
                            proof {
                                reveal_strlit("");
                            }
                            ""
                        },
                    };
                    proof {
                        encode_utf8_decode_utf8(piece@);
                        assert(slots@[k + 1] == slots@[(k + 1) as int]);
                    }
                    let tok = Token { text: piece, ttype: types[k] };
                    assert(tok.view() == toks[k as int]);
                    if k == 0 {
                        first = Some(tok);
                    } else {
                        let ghost pre = self.queue@;
                        self.queue.push_back(tok);
                        proof {
                            assert(token_views(self.queue@) =~= token_views(pre).push(tok.view()));
                            assert(toks.subrange(1, k + 1) =~= toks.subrange(1, k as int).push(toks[k as int]));
                        }
                    }
                    k += 1;
                }
                proof {
                    assert(toks.subrange(1, toks.len() as int) =~= toks.drop_first());
                }
                return Ok(first);
            },
        }
    }

    /// The next token: the oldest waiting one, else what the grammar makes of
    /// the text at the cursor, as `step` says. It is `Ok(None)`, with nothing
    /// changed, exactly when no token waits and no text is left. A token
    /// always takes text or a waiting token. An error, where a rule would
    /// pop the last state, leaves text and waiting tokens as they were.
    /// Where every split by groups covers its match, the token's text and
    /// what the lexer then owes make up what it owed before.
    pub fn next(&mut self) -> (r: Result<Option<Token<'t>>, LexError>)
        requires
            old(self).wf(),
        ensures
            final(self).wf(),
            final(self).grammar() == old(self).grammar(),
            (result_view(r), final(self).view()) == step(*old(self).grammar(), old(self).view()),
            r matches Ok(None) <==> old(self).view().queue.len() == 0 && old(self).view().rest.len()
                == 0,
            r matches Ok(None) ==> final(self).view() == old(self).view(),
            r matches Ok(Some(_)) ==> final(self).view().rest.len() < old(self).view().rest.len() || (
            final(self).view().rest == old(self).view().rest && final(self).view().queue.len()
                < old(self).view().queue.len()),
            r is Err ==> final(self).view().rest == old(self).view().rest && final(self).view().queue
                == old(self).view().queue,
            groups_tile(*old(self).grammar()) ==> (r matches Ok(Some(t)) ==> t.view().0 + pending(
                final(self).view(),
            ) == pending(old(self).view())),
    {
        proof {
            self.lemma_view_valid();
            lemma_step_done(*self.machine, self.view());
            lemma_forward_progress(*self.machine, self.view());
            if groups_tile(*self.machine) {
                lemma_step_covers(*self.machine, self.view());
            }
        }
        let ghost pre = self.queue@;
        match self.queue.pop_front() {
            Some(t) => {
                proof {
                    assert(token_views(self.queue@) =~= token_views(pre).drop_first());
                }
                Ok(Some(t))
            },
            None => {
                if self.rest.is_empty() {
                    Ok(None)
                } else {
                    self.lex_next()
                }
            },
        }
    }

    /// A well-formed lexer's scan state is valid for its grammar.
    pub proof fn lemma_view_valid(&self)
        requires
            self.wf(),
        ensures
            view_valid(*self.grammar(), self.view()),
    {
        assert forall|i: int| 0 <= i < self.view().stack.len() implies self.machine.names().contains(
            #[trigger] self.view().stack[i],
        ) by {
            assert(self.view().stack[i] == self.states@[i]@);
        }
    }
}

} // verus!

verus! {

/// The text of a list of tokens, concatenated in order.
pub open spec fn texts(q: Seq<(Seq<char>, TokenType)>) -> Seq<char>
    decreases q.len(),
{
    if q.len() == 0 {
        seq![]
    } else {
        q[0].0 + texts(q.drop_first())
    }
}

/// The text that a lexer still owes: its waiting tokens, then the text not yet scanned.
pub open spec fn pending(v: LexView) -> Seq<char> {
    texts(v.queue) + v.rest
}

/// A scan state that a lexer over `m` can be in: a non-empty stack of
/// states of the grammar.
pub open spec fn view_valid(m: Machine, v: LexView) -> bool {
    &&& m.wf()
    &&& v.stack.len() > 0
    &&& forall|i: int| 0 <= i < v.stack.len() ==> m.names().contains(#[trigger] v.stack[i])
}

/// Capture slots whose groups all took part and lie end to end from the
/// start of the text to the end of the whole match.
pub open spec fn slots_tile(slots: Seq<Option<(usize, usize)>>) -> bool {
    &&& slots.len() > 1
    &&& forall|k: int| 0 <= k < slots.len() ==> (#[trigger] slots[k]) is Some
    &&& slots[1]->Some_0.0 == 0
    &&& forall|k: int|
        1 <= k < slots.len() - 1 ==> (#[trigger] slots[k])->Some_0.1 == slots[k + 1]->Some_0.0
    &&& slots[slots.len() - 1]->Some_0.1 == slots[0]->Some_0.1
}

/// Every rule that splits its match by groups has groups that cover the match.
pub open spec fn groups_tile(m: Machine) -> bool {
    forall|i: int, j: int, text: Seq<char>|
        0 <= i < m.states@.len() && 0 <= j < m.rules_at(i).len() && m.rules_at(i)[j].1 is ByGroups
            ==> match #[trigger] regex_captures(m.rules_at(i)[j].0, text) {
            Some(slots) => slots_tile(slots),
            None => true,
        }
}

/// The scan state after `n` steps.
pub open spec fn after(m: Machine, v: LexView, n: nat) -> LexView
    decreases n,
{
    if n == 0 {
        v
    } else {
        after(m, step(m, v).1, (n - 1) as nat)
    }
}

/// The text of the tokens handed out by the first `n` steps, in order.
pub open spec fn emitted(m: Machine, v: LexView, n: nat) -> Seq<char>
    decreases n,
{
    if n == 0 {
        seq![]
    } else {
        let out = match step(m, v).0 {
            Ok(Some(t)) => t.0,
            _ => seq![],
        };
        out + emitted(m, step(m, v).1, (n - 1) as nat)
    }
}

/// The position of the top state in a valid scan state.
proof fn lemma_top_index(m: Machine, v: LexView)
    requires
        view_valid(m, v),
    ensures
        0 <= m.index_of(v.stack.last()) < m.states@.len(),
        m.names()[m.index_of(v.stack.last())] == v.stack.last(),
{
    assert(m.names().contains(v.stack[v.stack.len() - 1]));
    let i = m.index_of(v.stack.last());
    assert(0 <= i < m.names().len() && m.names()[i] == v.stack.last());
}

/// A byte range between two boundaries of valid UTF-8 decodes and encodes back.
proof fn lemma_piece(bytes: Seq<u8>, s: int, e: int)
    requires
        valid_utf8(bytes),
        0 <= s <= e <= bytes.len(),
        is_char_boundary(bytes, s),
        is_char_boundary(bytes, e),
    ensures
        valid_utf8(bytes.subrange(s, e)),
        encode_utf8(decode_utf8(bytes.subrange(s, e))) == bytes.subrange(s, e),
{
    crate::text::lemma_boundary_in_prefix(bytes, s, e);
    let pre = bytes.subrange(0, e);
    valid_utf8_split(pre, s);
    assert(pre.subrange(s, pre.len() as int) =~= bytes.subrange(s, e));
    decode_utf8_encode_utf8(bytes.subrange(s, e));
}

/// The `k`th group token holds the text of group `k + 1`, whose span runs
/// from this token's start to the next one's.
proof fn lemma_group_piece(
    bytes: Seq<u8>,
    slots: Seq<Option<(usize, usize)>>,
    types: Seq<TokenType>,
    k: int,
)
    requires
        crate::pattern::spans_well_formed(slots, bytes),
        slots_tile(slots),
        types.len() == slots.len() - 1,
        0 <= k < types.len(),
    ensures
        ({
            let sp = slots[k + 1]->Some_0;
            &&& slots[k + 1] is Some
            &&& sp.0 <= sp.1 <= bytes.len()
            &&& is_char_boundary(bytes, sp.0 as int)
            &&& is_char_boundary(bytes, sp.1 as int)
            &&& group_start(slots, k) == sp.0
            &&& group_start(slots, k + 1) == sp.1
            &&& group_tokens(bytes, slots, types)[k].0 == decode_utf8(
                bytes.subrange(sp.0 as int, sp.1 as int),
            )
        }),
{
    assert(slots[k + 1] is Some);
    assert(slots[0] is Some);
    if k + 1 < types.len() {
        assert(slots[k + 1]->Some_0.1 == slots[k + 2]->Some_0.0);
    }
}

/// The group tokens from the `k`th on encode to the bytes from that group's
/// start to the end of the match.
proof fn lemma_groups_bytes(
    bytes: Seq<u8>,
    slots: Seq<Option<(usize, usize)>>,
    types: Seq<TokenType>,
    k: int,
)
    requires
        valid_utf8(bytes),
        crate::pattern::spans_well_formed(slots, bytes),
        slots_tile(slots),
        types.len() == slots.len() - 1,
        0 <= k <= types.len(),
    ensures
        0 <= group_start(slots, k) <= match_end(slots) <= bytes.len(),
        encode_utf8(texts(group_tokens(bytes, slots, types).subrange(k, types.len() as int)))
            == bytes.subrange(group_start(slots, k), match_end(slots)),
    decreases types.len() - k,
{
    let toks = group_tokens(bytes, slots, types);
    let n = types.len() as int;
    let end = match_end(slots);
    let tail = toks.subrange(k, n);
    assert(slots[0] is Some);
    if k == n {
        assert(tail =~= seq![]);
        assert(bytes.subrange(end, end) =~= Seq::<u8>::empty());
    } else {
        lemma_groups_bytes(bytes, slots, types, k + 1);
        lemma_group_piece(bytes, slots, types, k);
        let rest_toks = toks.subrange(k + 1, n);
        assert(tail.drop_first() =~= rest_toks);
        let sp = slots[k + 1]->Some_0;
        lemma_piece(bytes, sp.0 as int, sp.1 as int);
        let first = tail[0].0;
        lemma_texts_cons(tail);
        assert(tail[0] == toks[k]);
        let x = encode_utf8(first);
        assert(x == bytes.subrange(sp.0 as int, sp.1 as int));
        let y = encode_utf8(texts(rest_toks));
        assert(y == bytes.subrange(sp.1 as int, end));
        lemma_join(first, texts(rest_toks), bytes, sp.0 as int, sp.1 as int, end);
        assert(encode_utf8(texts(tail)) == bytes.subrange(sp.0 as int, end));

    }
}

/// Texts whose encodings are adjacent byte ranges encode, joined, to the
/// range that spans both.
proof fn lemma_join(first: Seq<char>, more: Seq<char>, bytes: Seq<u8>, s: int, m: int, e: int)
    requires
        0 <= s <= m <= e <= bytes.len(),
        encode_utf8(first) == bytes.subrange(s, m),
        encode_utf8(more) == bytes.subrange(m, e),
    ensures
        encode_utf8(first + more) == bytes.subrange(s, e),
{
    crate::text::lemma_encode_concat(first, more);
    assert(bytes.subrange(s, m) + bytes.subrange(m, e) =~= bytes.subrange(s, e));
}

/// The text of a non-empty token list is its first token's, then the rest's.
proof fn lemma_texts_cons(q: Seq<(Seq<char>, TokenType)>)
    requires
        q.len() > 0,
    ensures
        texts(q) == q[0].0 + texts(q.drop_first()),
{
}

/// Where the `k`th group token starts: the start of group `k + 1`, or the
/// end of the match past the last group.
pub open spec fn group_start(slots: Seq<Option<(usize, usize)>>, k: int) -> int {
    if k < slots.len() - 1 {
        slots[k + 1]->Some_0.0 as int
    } else {
        match_end(slots)
    }
}

/// The first match, where there is one, is a position of the rule list
/// whose rule matches.
proof fn lemma_first_match_in_range(
    rules: Seq<(Seq<char>, MatchAction, StateAction)>,
    text: Seq<char>,
    from: int,
)
    ensures
        first_match(rules, text, from) matches Some(i) ==> from <= i < rules.len()
            && rule_matches(rules[i], text),
    decreases rules.len() - from,
{
    if 0 <= from < rules.len() && !rule_matches(rules[from], text) {
        lemma_first_match_in_range(rules, text, from + 1);
    }
}

/// The tokens that one match makes, followed by the text after the match,
/// give back the text.
proof fn lemma_match_covers(text: Seq<char>, slots: Seq<Option<(usize, usize)>>, action: MatchAction)
    requires
        crate::pattern::spans_well_formed(slots, encode_utf8(text)),
        action matches MatchAction::ByGroups(types) ==> slots_tile(slots) && slots.len()
            == types@.len() + 1,
    ensures
        ({
            let bytes = encode_utf8(text);
            let end = match_end(slots);
            let rest = decode_utf8(bytes.subrange(end, bytes.len() as int));
            match action {
                MatchAction::Single(_) => decode_utf8(bytes.subrange(0, end)) + rest == text,
                MatchAction::ByGroups(types) => {
                    let toks = group_tokens(bytes, slots, types@);
                    toks[0].0 + (texts(toks.drop_first()) + rest) == text
                },
            }
        }),
{
    let bytes = encode_utf8(text);
    let end = match_end(slots);
    assert(slots[0] is Some);
    encode_utf8_valid_utf8(text);
    is_char_boundary_start_end_of_seq(bytes);
    let rest = decode_utf8(bytes.subrange(end, bytes.len() as int));
    lemma_piece(bytes, end, bytes.len() as int);
    assert(bytes.subrange(0, end) + bytes.subrange(end, bytes.len() as int) =~= bytes);
    match action {
        MatchAction::Single(t) => {
            lemma_piece(bytes, 0, end);
            let tt = decode_utf8(bytes.subrange(0, end));
            crate::text::lemma_encode_concat(tt, rest);
            crate::text::lemma_encode_injective(tt + rest, text);
        },
        MatchAction::ByGroups(types) => {
            let toks = group_tokens(bytes, slots, types@);
            lemma_groups_bytes(bytes, slots, types@, 0);
            assert(toks.subrange(0, types@.len() as int) =~= toks);
            assert(toks[0].0 + texts(toks.drop_first()) == texts(toks));
            crate::text::lemma_encode_concat(texts(toks), rest);
            crate::text::lemma_encode_injective(texts(toks) + rest, text);
            assert(toks[0].0 + (texts(toks.drop_first()) + rest) =~= texts(toks) + rest);
        },
    }
}

/// A non-empty match leaves less text, and its tokens and the text after it
/// make up the text where every split by groups covers its match.
proof fn lemma_match_step(v: LexView, rule: (Seq<char>, MatchAction, StateAction), slots: Seq<Option<(usize, usize)>>)
    requires
        v.queue.len() == 0,
        slots_usable(rule, slots, encode_utf8(v.rest)),
        match_end(slots) > 0,
    ensures
        apply_match(v, rule, slots).0 matches Ok(Some(_)) ==> apply_match(v, rule, slots).1.rest.len()
            < v.rest.len(),
        apply_match(v, rule, slots).0 is Err ==> apply_match(v, rule, slots).1 == v,
        apply_match(v, rule, slots).0 matches Ok(None) ==> false,
        (rule.1 is ByGroups ==> slots_tile(slots)) ==> (apply_match(v, rule, slots).0 matches Ok(
            Some(t),
        ) ==> t.0 + pending(apply_match(v, rule, slots).1) == pending(v)),
{
    let bytes = encode_utf8(v.rest);
    let end = match_end(slots);
    assert(slots[0] is Some);
    encode_utf8_valid_utf8(v.rest);
    encode_utf8_decode_utf8(v.rest);
    is_char_boundary_start_end_of_seq(bytes);
    decode_utf8_split(bytes, end);
    lemma_piece(bytes, 0, end);
    let head = decode_utf8(bytes.subrange(0, end));
    if head.len() == 0 {
        assert(encode_utf8(head) =~= Seq::<u8>::empty());
        assert(bytes.subrange(0, end).len() == end);
    }
    assert(texts(v.queue) =~= seq![]);
    if can_apply(rule.2, v.stack.len() as int) && (rule.1 is ByGroups ==> slots_tile(slots)) {
        lemma_match_covers(v.rest, slots, rule.1);
        let v2 = apply_match(v, rule, slots).1;
        if rule.1 is Single {
            assert(texts(v2.queue) =~= seq![]);
            assert(pending(v2) =~= v2.rest);
        } else {
            let toks = group_tokens(bytes, slots, rule.1->ByGroups_0@);
            assert(pending(v2) == texts(toks.drop_first()) + v2.rest);
        }
    }
}

/// A stack action keeps a stack valid for the grammar.
proof fn lemma_apply_keeps_valid(m: Machine, v: LexView, a: StateAction)
    requires
        view_valid(m, v),
        can_apply(a, v.stack.len() as int),
        targets_known(a, m.names()),
    ensures
        view_valid(m, LexView { stack: apply_action(a, v.stack), ..v }),
{
    let st = apply_action(a, v.stack);
    assert forall|q: int| 0 <= q < st.len() implies m.names().contains(#[trigger] st[q]) by {
        if q < v.stack.len() {
            assert(st[q] == v.stack[q]);
        } else {
            match a {
                StateAction::PushMulti(ns) => {
                    assert(st[q] == ns@[q - v.stack.len()]@);
                },
                StateAction::PushSelf(_) => {
                    assert(st[q] == v.stack[v.stack.len() - 1]);
                },
                _ => {},
            }
        }
    }
}

/// The rule that fires is a rule of the grammar, so its stack action
/// pushes only known states and its groups cover its match where the
/// grammar's do.
proof fn lemma_fired_rule_of_grammar(m: Machine, v: LexView)
    requires
        view_valid(m, v),
    ensures
        first_match(m.rules_of(v.stack.last()), v.rest, 0) matches Some(i) ==> {
            let rule = m.rules_of(v.stack.last())[i];
            &&& rule_matches(rule, v.rest)
            &&& targets_known(rule.2, m.names())
            &&& groups_tile(m) && rule.1 is ByGroups ==> slots_tile(
                regex_captures(rule.0, v.rest)->Some_0,
            )
        },
{
    lemma_top_index(m, v);
    let ti = m.index_of(v.stack.last());
    let rules = m.rules_of(v.stack.last());
    lemma_first_match_in_range(rules, v.rest, 0);
    if let Some(i) = first_match(rules, v.rest, 0) {
        assert(targets_known(m.rules_at(ti)[i].2, m.names()));
        if groups_tile(m) && rules[i].1 is ByGroups {
            assert(regex_captures(m.rules_at(ti)[i].0, v.rest) is Some);
        }
    }
}

/// The search for a token keeps a scan state valid, leaves the waiting
/// tokens and, on an error, the text as they were; and a token it yields
/// takes text, covering it where every split by groups covers its match.
proof fn lemma_scan(m: Machine, v: LexView, fuel: nat)
    requires
        view_valid(m, v),
        v.queue.len() == 0,
        v.rest.len() > 0,
    ensures
        view_valid(m, scan(m, v, fuel).1),
        scan(m, v, fuel).0 matches Ok(None) ==> false,
        scan(m, v, fuel).0 matches Ok(Some(_)) ==> scan(m, v, fuel).1.rest.len() < v.rest.len(),
        scan(m, v, fuel).0 is Err ==> scan(m, v, fuel).1.rest == v.rest && scan(m, v, fuel).1.queue
            == v.queue,
        groups_tile(m) ==> (scan(m, v, fuel).0 matches Ok(Some(t)) ==> t.0 + pending(
            scan(m, v, fuel).1,
        ) == pending(v)),
    decreases fuel,
{
    let rules = m.rules_of(v.stack.last());
    lemma_fired_rule_of_grammar(m, v);
    match first_match(rules, v.rest, 0) {
        Some(i) => {
            let rule = rules[i];
            let slots = regex_captures(rule.0, v.rest)->Some_0;
            if match_end(slots) > 0 {
                lemma_match_step(v, rule, slots);
                if can_apply(rule.2, v.stack.len() as int) {
                    lemma_apply_keeps_valid(m, v, rule.2);
                }
            } else if can_apply(rule.2, v.stack.len() as int) {
                lemma_apply_keeps_valid(m, v, rule.2);
                if fuel > 0 {
                    let v2 = LexView { stack: apply_action(rule.2, v.stack), ..v };
                    lemma_scan(m, v2, (fuel - 1) as nat);
                    assert(pending(v2) == pending(v));
                } else {
                    lemma_fallback_step(v);
                }
            }
        },
        None => {
            lemma_fallback_step(v);
        },
    }
}

/// The fallback character makes up the text with what is left of it.
proof fn lemma_fallback_step(v: LexView)
    requires
        v.queue.len() == 0,
        v.rest.len() > 0,
    ensures
        fallback(v).0->Ok_0->Some_0.0 + pending(fallback(v).1) == pending(v),
{
    assert(texts(v.queue) =~= seq![]);
    assert(seq![v.rest[0]] + v.rest.drop_first() =~= v.rest);
    assert(pending(fallback(v).1) =~= v.rest.drop_first());
}

/// The end of input: a step yields nothing exactly when no token waits and
/// no text is left, and then it changes nothing.
pub proof fn lemma_step_done(m: Machine, v: LexView)
    ensures
        step(m, v).0 matches Ok(None) <==> v.queue.len() == 0 && v.rest.len() == 0,
        step(m, v).0 matches Ok(None) ==> step(m, v).1 == v,
{
    if v.queue.len() == 0 && v.rest.len() > 0 {
        lemma_scan_yields(m, v, EMPTY_MATCH_LIMIT as nat);
    }
}

/// The search for a token never ends the lexer.
proof fn lemma_scan_yields(m: Machine, v: LexView, fuel: nat)
    requires
        v.rest.len() > 0,
    ensures
        !(scan(m, v, fuel).0 matches Ok(None)),
    decreases fuel,
{
    let rules = m.rules_of(v.stack.last());
    if let Some(i) = first_match(rules, v.rest, 0) {
        let slots = regex_captures(rules[i].0, v.rest)->Some_0;
        if match_end(slots) == 0 && can_apply(rules[i].2, v.stack.len() as int) && fuel > 0 {
            lemma_scan_yields(
                m,
                LexView { stack: apply_action(rules[i].2, v.stack), ..v },
                (fuel - 1) as nat,
            );
        }
    }
}

/// A step keeps a scan state valid: the stack stays non-empty and holds
/// only states of the grammar.
pub proof fn lemma_step_keeps_valid(m: Machine, v: LexView)
    requires
        view_valid(m, v),
    ensures
        view_valid(m, step(m, v).1),
{
    if v.queue.len() == 0 && v.rest.len() > 0 {
        lemma_scan(m, v, EMPTY_MATCH_LIMIT as nat);
    }
}

/// Forward progress: every step that yields a token either consumes text,
/// or leaves the text as it is and takes a waiting token; an error leaves
/// text and waiting tokens as they were.
pub proof fn lemma_forward_progress(m: Machine, v: LexView)
    requires
        view_valid(m, v),
    ensures
        step(m, v).0 matches Ok(Some(_)) ==> step(m, v).1.rest.len() < v.rest.len() || (step(
            m,
            v,
        ).1.rest == v.rest && step(m, v).1.queue.len() < v.queue.len()),
        step(m, v).0 is Err ==> step(m, v).1.rest == v.rest && step(m, v).1.queue == v.queue,
{
    if v.queue.len() == 0 && v.rest.len() > 0 {
        lemma_scan(m, v, EMPTY_MATCH_LIMIT as nat);
    }
}

/// Coverage, one step at a time: the text of the token handed out, followed
/// by what the lexer owes afterwards, is what it owed before; a lexer that
/// is done owes nothing, and an error leaves what it owes as it was. This
/// holds where every split by groups covers its match.
pub proof fn lemma_step_covers(m: Machine, v: LexView)
    requires
        view_valid(m, v),
        groups_tile(m),
    ensures
        step(m, v).0 matches Ok(Some(t)) ==> t.0 + pending(step(m, v).1) == pending(v),
        step(m, v).0 matches Ok(None) ==> pending(v).len() == 0 && step(m, v).1 == v,
        step(m, v).0 is Err ==> pending(step(m, v).1) == pending(v),
{
    lemma_step_done(m, v);
    if v.queue.len() > 0 {
        assert(v.queue[0].0 + texts(v.queue.drop_first()) == texts(v.queue));
        assert(v.queue[0].0 + (texts(v.queue.drop_first()) + v.rest) =~= texts(v.queue) + v.rest);
    } else if v.rest.len() == 0 {
        assert(texts(v.queue) =~= seq![]);
        assert(pending(v) =~= v.rest);
    } else {
        lemma_scan(m, v, EMPTY_MATCH_LIMIT as nat);
    }
}

/// Coverage over a whole run: the text of the tokens handed out by the
/// first `n` steps, followed by what the lexer then owes, is what it owed at
/// the start. This holds where every split by groups covers its match.
pub proof fn lemma_run_covers(m: Machine, v: LexView, n: nat)
    requires
        view_valid(m, v),
        groups_tile(m),
    ensures
        emitted(m, v, n) + pending(after(m, v, n)) == pending(v),
    decreases n,
{
    if n > 0 {
        let v1 = step(m, v).1;
        lemma_step_covers(m, v);
        lemma_step_keeps_valid(m, v);
        lemma_run_covers(m, v1, (n - 1) as nat);
        let out = match step(m, v).0 {
            Ok(Some(t)) => t.0,
            _ => seq![],
        };
        assert(out + pending(v1) == pending(v)) by {
            if !(step(m, v).0 is Ok && step(m, v).0->Ok_0 is Some) {
                assert(out + pending(v1) =~= pending(v1));
            }
        }
        assert(out + emitted(m, v1, (n - 1) as nat) + pending(after(m, v1, (n - 1) as nat))
            =~= out + (emitted(m, v1, (n - 1) as nat) + pending(after(m, v1, (n - 1) as nat))));
    }
}

/// Total coverage: a lexer that starts on an input with no token waiting
/// and is done after `n` steps has handed out tokens whose texts, in order,
/// make up the input exactly. This holds where every split by groups
/// covers its match.
pub proof fn lemma_round_trip(m: Machine, v: LexView, n: nat)
    requires
        view_valid(m, v),
        v.queue.len() == 0,
        groups_tile(m),
        step(m, after(m, v, n)).0 == Ok::<Option<(Seq<char>, TokenType)>, LexError>(None),
    ensures
        emitted(m, v, n) == v.rest,
{
    lemma_run_covers(m, v, n);
    lemma_valid_after(m, v, n);
    lemma_step_covers(m, after(m, v, n));
    assert(texts(v.queue) =~= seq![]);
    assert(pending(v) =~= v.rest);
    assert(pending(after(m, v, n)) =~= seq![]);
    assert(emitted(m, v, n) + seq![] =~= emitted(m, v, n));
}

/// Every scan state that a run reaches is valid.
pub proof fn lemma_valid_after(m: Machine, v: LexView, n: nat)
    requires
        view_valid(m, v),
    ensures
        view_valid(m, after(m, v, n)),
    decreases n,
{
    if n > 0 {
        lemma_step_keeps_valid(m, v);
        lemma_valid_after(m, step(m, v).1, (n - 1) as nat);
    }
}

/// Every split by groups of the grammar names at most `g` types.
pub open spec fn groups_at_most(m: Machine, g: nat) -> bool {
    forall|i: int, j: int|
        0 <= i < m.states@.len() && 0 <= j < m.rules_at(i).len() ==> ((#[trigger] m.rules_at(
            i,
        )[j]).1 matches MatchAction::ByGroups(ts) ==> ts@.len() <= g)
}

/// A bound on the tokens still to come: `g` for each character left, and
/// one for each waiting token.
pub open spec fn measure(v: LexView, g: nat) -> nat {
    v.rest.len() * g + v.queue.len()
}

/// Termination: where every split names at most `g` types and fewer than
/// `g` tokens wait, each step that yields a token lowers the measure and
/// keeps fewer than `g` tokens waiting. So a lexer over an input of `n`
/// characters yields at most `n * g` tokens before it is done.
pub proof fn lemma_step_measure(m: Machine, v: LexView, g: nat)
    requires
        view_valid(m, v),
        g >= 1,
        groups_at_most(m, g),
        v.queue.len() < g,
    ensures
        step(m, v).0 matches Ok(Some(_)) ==> measure(step(m, v).1, g) < measure(v, g)
            && step(m, v).1.queue.len() < g,
{
    if v.queue.len() == 0 && v.rest.len() > 0 {
        lemma_scan_queue(m, v, g, EMPTY_MATCH_LIMIT as nat);
        lemma_scan(m, v, EMPTY_MATCH_LIMIT as nat);
        let v2 = step(m, v).1;
        if step(m, v).0 is Ok {
            let a = v2.rest.len();
            let b = v.rest.len();
            assert(a + 1 <= b);
            assert(a * g + g <= b * g) by (nonlinear_arith)
                requires
                    a + 1 <= b,
                    g >= 1,
            ;
        }
    }
}

/// Termination over a run: where every split names at most `g` types and
/// fewer than `g` tokens wait at the start, the steps that yield tokens one
/// after another number at most `g` for each character of text plus the
/// waiting tokens; so the lexer is done or fails within that many steps.
pub proof fn lemma_run_bound(m: Machine, v: LexView, g: nat, n: nat)
    requires
        view_valid(m, v),
        g >= 1,
        groups_at_most(m, g),
        v.queue.len() < g,
        forall|k: nat| k < n ==> (#[trigger] step(m, after(m, v, k))).0 matches Ok(Some(_)),
    ensures
        n <= measure(v, g),
    decreases n,
{
    if n > 0 {
        let v1 = step(m, v).1;
        assert(step(m, after(m, v, 0)).0 matches Ok(Some(_)));
        lemma_step_measure(m, v, g);
        lemma_step_keeps_valid(m, v);
        assert forall|k: nat| k < (n - 1) as nat implies (#[trigger] step(m, after(m, v1, k))).0 matches Ok(
            Some(_),
        ) by {
            assert(after(m, v, k + 1) == after(m, v1, k));
            assert(step(m, after(m, v, (k + 1) as nat)).0 matches Ok(Some(_)));
        }
        lemma_run_bound(m, v1, g, (n - 1) as nat);
    }
}

/// The search for a token leaves fewer than `g` tokens waiting.
proof fn lemma_scan_queue(m: Machine, v: LexView, g: nat, fuel: nat)
    requires
        view_valid(m, v),
        groups_at_most(m, g),
        g >= 1,
        v.queue.len() == 0,
        v.rest.len() > 0,
    ensures
        scan(m, v, fuel).1.queue.len() < g,
    decreases fuel,
{
    let rules = m.rules_of(v.stack.last());
    lemma_top_index(m, v);
    lemma_first_match_in_range(rules, v.rest, 0);
    lemma_fired_rule_of_grammar(m, v);
    if let Some(i) = first_match(rules, v.rest, 0) {
        let ti = m.index_of(v.stack.last());
        let slots = regex_captures(rules[i].0, v.rest)->Some_0;
        assert(rules[i] == m.rules_at(ti)[i]);
        if match_end(slots) == 0 && can_apply(rules[i].2, v.stack.len() as int) && fuel > 0 {
            lemma_apply_keeps_valid(m, v, rules[i].2);
            lemma_scan_queue(
                m,
                LexView { stack: apply_action(rules[i].2, v.stack), ..v },
                g,
                (fuel - 1) as nat,
            );
        }
    }
}

/// The rule that fires in a scan state with no token waiting, where the
/// first rule of the top state that matches makes a non-empty match.
pub open spec fn fired_rule(m: Machine, v: LexView) -> Option<(Seq<char>, MatchAction, StateAction)> {
    match first_match(m.rules_of(v.stack.last()), v.rest, 0) {
        Some(i) => if match_end(regex_captures(m.rules_of(v.stack.last())[i].0, v.rest)->Some_0)
            > 0 {
            Some(m.rules_of(v.stack.last())[i])
        } else {
            None
        },
        None => None,
    }
}

/// Steps that hand out waiting tokens hand them out oldest first and touch
/// neither the stack nor the text.
pub proof fn lemma_drain(m: Machine, u: LexView, j: nat)
    requires
        j < u.queue.len(),
    ensures
        after(m, u, j).queue == u.queue.subrange(j as int, u.queue.len() as int),
        after(m, u, j).stack == u.stack,
        after(m, u, j).rest == u.rest,
        step(m, after(m, u, j)).0 == Ok::<Option<(Seq<char>, TokenType)>, LexError>(
            Some(u.queue[j as int]),
        ),
    decreases j,
{
    if j == 0 {
        assert(u.queue.subrange(0, u.queue.len() as int) =~= u.queue);
    } else {
        let u1 = step(m, u).1;
        lemma_drain(m, u1, (j - 1) as nat);
        assert(u1.queue.subrange(j - 1, u1.queue.len() as int) =~= u.queue.subrange(
            j as int,
            u.queue.len() as int,
        ));
    }
}

/// Group order: when a rule that splits its match by groups fires, the
/// `k`th step from then on hands out the token of group `k + 1`, typed by
/// the `k`th type of the rule; so the groups come out in order.
pub proof fn lemma_group_order(m: Machine, v: LexView, k: nat)
    requires
        v.queue.len() == 0,
        v.rest.len() > 0,
        fired_rule(m, v) matches Some(r) && r.1 is ByGroups && can_apply(
            r.2,
            v.stack.len() as int,
        ),
        k < fired_rule(m, v)->Some_0.1->ByGroups_0@.len(),
    ensures
        ({
            let r = fired_rule(m, v)->Some_0;
            let slots = regex_captures(r.0, v.rest)->Some_0;
            let toks = group_tokens(encode_utf8(v.rest), slots, r.1->ByGroups_0@);
            &&& step(m, after(m, v, k)).0 == Ok::<Option<(Seq<char>, TokenType)>, LexError>(
                Some(toks[k as int]),
            )
            &&& toks[k as int].1 == r.1->ByGroups_0@[k as int]
        }),
{
    let r = fired_rule(m, v)->Some_0;
    let slots = regex_captures(r.0, v.rest)->Some_0;
    let toks = group_tokens(encode_utf8(v.rest), slots, r.1->ByGroups_0@);
    if k > 0 {
        let v1 = step(m, v).1;
        assert(v1.queue == toks.drop_first());
        lemma_drain(m, v1, (k - 1) as nat);
        assert(after(m, v, k) == after(m, v1, (k - 1) as nat));
    }
}

/// Stack discipline: a rule that pushes a state, followed, once the tokens
/// it left waiting are handed out, by a rule of that state that pops,
/// leaves the stack as it was before the push.
pub proof fn lemma_push_then_pop(m: Machine, v: LexView, w: LexView)
    requires
        v.stack.len() > 0,
        v.queue.len() == 0,
        v.rest.len() > 0,
        fired_rule(m, v) matches Some(r) && r.2 is Push,
        w.stack == step(m, v).1.stack,
        w.queue.len() == 0,
        w.rest.len() > 0,
        fired_rule(m, w) matches Some(r) && r.2 is Pop,
    ensures
        step(m, w).0 is Ok,
        step(m, w).1.stack == v.stack,
{
    let st = step(m, v).1.stack;
    assert(step(m, v) == scan(m, v, EMPTY_MATCH_LIMIT as nat));
    assert(step(m, w) == scan(m, w, EMPTY_MATCH_LIMIT as nat));
    assert(st == v.stack.push(fired_rule(m, v)->Some_0.2->Push_0@));
    assert(st.drop_last() =~= v.stack);
}

/// Fallback typing: with no token waiting and no rule of the top state
/// matching at the start of a non-empty text, the step hands out an `Error`
/// token holding exactly the first character of the text, and the stack
/// stays as it is.
pub proof fn lemma_fallback(m: Machine, v: LexView)
    requires
        v.queue.len() == 0,
        v.rest.len() > 0,
        forall|j: int|
            0 <= j < m.rules_of(v.stack.last()).len() ==> !rule_matches(
                #[trigger] m.rules_of(v.stack.last())[j],
                v.rest,
            ),
    ensures
        step(m, v).0 == Ok::<Option<(Seq<char>, TokenType)>, LexError>(
            Some((seq![v.rest[0]], TokenType::Error)),
        ),
        step(m, v).1.stack == v.stack,
        step(m, v).1.queue == v.queue,
        step(m, v).1.rest == v.rest.drop_first(),
{
    let rules = m.rules_of(v.stack.last());
    lemma_first_match_at(rules, v.rest, 0, rules.len() as int);
}

} // verus!
