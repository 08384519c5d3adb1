//! Grammars: named states, each an ordered list of rules, and their
//! compilation from a declarative table into ready-to-match form.

use vstd::prelude::*;
use vstd::string::*;
use crate::pattern::{compile, regex_compiles, regex_slot_count, slot_count, Pattern};
use crate::text::str_eq;
use crate::token::TokenType;

verus! {

/// How the text of a match becomes tokens.
#[derive(Clone, Copy, Debug, PartialEq, Eq)]
pub enum MatchAction {
    /// The whole match is one token of this type.
    Single(TokenType),
    /// Capture group `i + 1` becomes a token of the `i`th type.
    ByGroups(&'static [TokenType]),
}

/// How the state stack changes after a rule fires.
#[derive(Clone, Copy, Debug, PartialEq, Eq)]
pub enum StateAction {
    /// Leaves the stack as it is.
    Stay,
    Pop,
    PopMulti(usize),
    Push(&'static str),
    PushMulti(&'static [&'static str]),
    PushSelf(usize),
}

/// One entry of a declarative rule table.
#[derive(Clone, Copy, Debug, PartialEq, Eq)]
pub enum RuleDef {
    /// A pattern with what its match yields and how the stack changes.
    Regex(&'static str, MatchAction, StateAction),
    /// A list of words; not supported, and skipped when a table is compiled.
    Words(&'static [&'static str], MatchAction, StateAction),
    /// Matches the empty string and only changes the stack.
    Default(StateAction),
}

/// A declarative grammar: each state's name with its rule table.
pub type MachineDef = &'static [(&'static str, &'static [RuleDef])];

/// Why a rule table does not make a grammar.
#[derive(Clone, Copy, Debug, PartialEq, Eq)]
pub enum GrammarError {
    /// Two states have this name.
    DuplicateState(&'static str),
    /// The pattern of this rule (by its index in its state's table) is refused.
    InvalidPattern(&'static str, usize),
    /// This rule splits its match by groups, but has no types or not one per group.
    GroupMismatch(&'static str, usize),
    /// No state is named `root`.
    MissingRoot,
    /// A rule pushes a state that the grammar does not define.
    UnknownState(&'static str),
}

/// The source that a rule's pattern is compiled from: anchored at the start
/// of the text, with the rule's own groups numbered as written.
pub open spec fn anchored(pattern: Seq<char>) -> Seq<char> {
    "\\A(?:"@ + pattern + ")"@
}

/// A compiled rule: its pattern, what its match yields, how the stack changes.
pub struct Rule(pub Pattern, pub MatchAction, pub StateAction);

impl Rule {
    /// The rule as its pattern source and its two actions.
    pub open spec fn view(&self) -> (Seq<char>, MatchAction, StateAction) {
        (self.0.source(), self.1, self.2)
    }
}

/// A state: its rules, in the order in which they are tried.
pub struct State(pub Vec<Rule>);

/// A compiled grammar: state names and, at the same positions, their states.
pub struct Machine {
    pub names: Vec<&'static str>,
    pub states: Vec<State>,
}

/// The names of a list, as character sequences.
pub open spec fn name_views(names: Seq<&'static str>) -> Seq<Seq<char>> {
    names.map_values(|n: &'static str| n@)
}

/// The rules of a list, as their views.
pub open spec fn rule_views(rules: Seq<Rule>) -> Seq<(Seq<char>, MatchAction, StateAction)> {
    rules.map_values(|r: Rule| r.view())
}

/// A rule whose match action fits its pattern: a split by groups names at
/// least one type and exactly one per capture group.
pub open spec fn rule_fits(r: (Seq<char>, MatchAction, StateAction)) -> bool {
    match r.1 {
        MatchAction::ByGroups(types) => types@.len() > 0 && regex_slot_count(r.0) == types@.len()
            + 1,
        MatchAction::Single(_) => true,
    }
}

/// Every name of a list is among `names`.
pub open spec fn all_known(list: Seq<&'static str>, names: Seq<Seq<char>>) -> bool {
    forall|k: int| 0 <= k < list.len() ==> names.contains(#[trigger] list[k]@)
}

/// Every state that an action pushes by name is among `names`.
pub open spec fn targets_known(a: StateAction, names: Seq<Seq<char>>) -> bool {
    match a {
        StateAction::Push(n) => names.contains(n@),
        StateAction::PushMulti(ns) => all_known(ns@, names),
        _ => true,
    }
}

/// The names of a table's states, in order.
pub open spec fn def_names(defs: Seq<(&'static str, &'static [RuleDef])>) -> Seq<Seq<char>> {
    defs.map_values(|d: (&'static str, &'static [RuleDef])| d.0@)
}

/// The compiled form of one table entry; a word list compiles to nothing.
pub open spec fn rule_of_def(d: RuleDef) -> Seq<(Seq<char>, MatchAction, StateAction)> {
    match d {
        RuleDef::Regex(p, m, s) => seq![(anchored(p@), m, s)],
        RuleDef::Words(_, _, _) => seq![],
        RuleDef::Default(s) => seq![(anchored(""@), MatchAction::Single(TokenType::Text), s)],
    }
}

/// The compiled rules of a state's table, in order.
pub open spec fn rules_of_defs(defs: Seq<RuleDef>) -> Seq<(Seq<char>, MatchAction, StateAction)>
    decreases defs.len(),
{
    if defs.len() == 0 {
        seq![]
    } else {
        rules_of_defs(defs.drop_last()) + rule_of_def(defs.last())
    }
}

/// A table entry whose pattern compiles and whose match action fits it.
pub open spec fn def_compiles(d: RuleDef) -> bool {
    forall|k: int|
        0 <= k < rule_of_def(d).len() ==> regex_compiles(#[trigger] rule_of_def(d)[k].0)
            && rule_fits(rule_of_def(d)[k])
}

/// A table entry whose pushes name states of the table.
pub open spec fn def_targets_known(d: RuleDef, names: Seq<Seq<char>>) -> bool {
    match d {
        RuleDef::Regex(_, _, s) => targets_known(s, names),
        RuleDef::Words(_, _, _) => true,
        RuleDef::Default(s) => targets_known(s, names),
    }
}

/// A table that makes a grammar: unique state names, one of them `root`,
/// every pattern accepted and fitting its match action, every push known.
pub open spec fn defs_valid(defs: Seq<(&'static str, &'static [RuleDef])>) -> bool {
    &&& forall|i: int, j: int|
        0 <= i < j < defs.len() ==> (#[trigger] defs[i]).0@ != (#[trigger] defs[j]).0@
    &&& def_names(defs).contains("root"@)
    &&& forall|i: int, k: int|
        0 <= i < defs.len() && 0 <= k < defs[i].1@.len() ==> def_compiles(
            #[trigger] defs[i].1@[k],
        )
    &&& forall|i: int, k: int|
        0 <= i < defs.len() && 0 <= k < defs[i].1@.len() ==> def_targets_known(
            #[trigger] defs[i].1@[k],
            def_names(defs),
        )
}

/// Where a name first occurs in a list of names.
fn position_of(names: &Vec<&'static str>, name: &str) -> (r: Option<usize>)
    ensures
        match r {
            Some(i) => i < names@.len() && names@[i as int]@ == name@,
            None => !name_views(names@).contains(name@),
        },
{
    let mut i: usize = 0;
    while i < names.len()
        invariant
            0 <= i <= names@.len(),
            forall|j: int| 0 <= j < i ==> names@[j]@ != name@,
        decreases names@.len() - i,
    {
        if str_eq(names[i], name) {
            return Some(i);
        }
        i += 1;
    }
    proof {
        let v = name_views(names@);
        assert forall|j: int| 0 <= j < v.len() implies v[j] != name@ by {
            assert(v[j] == names@[j]@);
        }
    }
    None
}

/// The first name that an action pushes and `names` lacks, if any.
fn unknown_target(a: StateAction, names: &Vec<&'static str>) -> (r: Option<&'static str>)
    ensures
        match r {
            Some(n) => !targets_known(a, name_views(names@))
                && !name_views(names@).contains(n@),
            None => targets_known(a, name_views(names@)),
        },
{
    let ghost v = name_views(names@);
    match a {
        StateAction::Push(n) => {
            match position_of(names, n) {
                Some(i) => {
                    proof {
                        assert(v[i as int] == n@);
                    }
                    None
                },
                None => Some(n),
            }
        },
        StateAction::PushMulti(ns) => {
            let mut k: usize = 0;
            while k < ns.len()
                invariant
                    a == StateAction::PushMulti(ns),
                    0 <= k <= ns@.len(),
                    v == name_views(names@),
                    forall|q: int| 0 <= q < k ==> v.contains(#[trigger] ns@[q]@),
                decreases ns@.len() - k,
            {
                match position_of(names, ns[k]) {
                    Some(i) => {
                        proof {
                            assert(v[i as int] == ns@[k as int]@);
                        }
                    },
                    None => {
                        assert(!v.contains(ns@[k as int]@));
                        assert(!all_known(ns@, v));
                        assert(!targets_known(a, v));
                        return Some(ns[k]);
                    },
                }
                k += 1;
            }
            assert(all_known(ns@, v));
            None
        },
        _ => None,
    }
}

/// Compiles one rule: its pattern, anchored, and a check that its match
/// action fits the pattern's groups.
fn compile_rule(
    state: &'static str,
    index: usize,
    pattern: &str,
    m: MatchAction,
    s: StateAction,
) -> (r: Result<Rule, GrammarError>)
    ensures
        match r {
            Ok(rule) => rule.view() == (anchored(pattern@), m, s) && regex_compiles(
                anchored(pattern@),
            ) && rule_fits(rule.view()),
            Err(e) => (e == GrammarError::InvalidPattern(state, index) && !regex_compiles(
                anchored(pattern@),
            )) || (e == GrammarError::GroupMismatch(state, index) && regex_compiles(
                anchored(pattern@),
            ) && !rule_fits((anchored(pattern@), m, s))),
        },
{
    let mut source = String::from_str("\\A(?:");
    source.append(pattern);
    source.append(")");
    match compile(source) {
        Err(_) => Err(GrammarError::InvalidPattern(state, index)),
        Ok(p) => {
            if let MatchAction::ByGroups(types) = m {
                if types.len() == 0 || slot_count(&p) - 1 != types.len() {
                    return Err(GrammarError::GroupMismatch(state, index));
                }
            }
            Ok(Rule(p, m, s))
        },
    }
}

/// Each compiled rule comes from one entry of its table.
proof fn lemma_rule_origin(d: Seq<RuleDef>, j: int)
    requires
        0 <= j < rules_of_defs(d).len(),
    ensures
        exists|k: int|
            0 <= k < d.len() && rule_of_def(#[trigger] d[k]).len() == 1 && rules_of_defs(d)[j]
                == rule_of_def(d[k])[0],
    decreases d.len(),
{
    let pre = rules_of_defs(d.drop_last());
    if j < pre.len() {
        lemma_rule_origin(d.drop_last(), j);
        let k = choose|k: int|
            0 <= k < d.drop_last().len() && rule_of_def(#[trigger] d.drop_last()[k]).len() == 1
                && pre[j] == rule_of_def(d.drop_last()[k])[0];
        assert(d[k] == d.drop_last()[k]);
    } else {
        assert(d[d.len() - 1] == d.last());
    }
}

impl Machine {
    /// The state names, in order.
    pub open spec fn names(&self) -> Seq<Seq<char>> {
        name_views(self.names@)
    }

    /// The rules of the state at a position.
    pub open spec fn rules_at(&self, i: int) -> Seq<(Seq<char>, MatchAction, StateAction)> {
        rule_views(self.states@[i].0@)
    }

    /// The position of the state with a given name.
    pub open spec fn index_of(&self, name: Seq<char>) -> int {
        self.names().index_of(name)
    }

    /// The rules of the state with a given name.
    pub open spec fn rules_of(&self, name: Seq<char>) -> Seq<(Seq<char>, MatchAction, StateAction)> {
        self.rules_at(self.index_of(name))
    }

    /// One state per name, names unique, every rule fitting its pattern and
    /// pushing only states that exist.
    pub open spec fn wf(&self) -> bool {
        &&& self.names@.len() == self.states@.len()
        &&& self.names().no_duplicates()
        &&& forall|i: int, j: int|
            0 <= i < self.states@.len() && 0 <= j < self.rules_at(i).len() ==> rule_fits(
                #[trigger] self.rules_at(i)[j],
            ) && targets_known(self.rules_at(i)[j].2, self.names())
    }

    /// The position of a named state, if the grammar has it.
    pub fn find_state(&self, name: &str) -> (r: Option<usize>)
        ensures
            match r {
                Some(i) => i < self.names@.len() && self.names()[i as int] == name@,
                None => !self.names().contains(name@),
            },
    {
        position_of(&self.names, name)
    }

    /// Compiles a rule table into a grammar. Fails on the first problem found:
    /// state by state, a repeated name, then each rule's pattern and groups in
    /// order; then a missing `root`; then, in table order, a push of a state
    /// that the table lacks.
    pub fn convert(machine: MachineDef) -> (r: Result<Machine, GrammarError>)
        ensures
            r is Ok <==> defs_valid(machine@),
            r matches Ok(m) ==> {
                &&& m.wf()
                &&& m.names() == def_names(machine@)
                &&& forall|i: int|
                    0 <= i < machine@.len() ==> #[trigger] m.rules_at(i) == rules_of_defs(
                        machine@[i].1@,
                    )
            },
            r matches Err(GrammarError::DuplicateState(n)) ==> exists|i: int, j: int|
                0 <= i < j < machine@.len() && (#[trigger] machine@[i]).0@ == n@
                    && (#[trigger] machine@[j]).0@ == n@,
            r matches Err(GrammarError::InvalidPattern(n, k)) ==> exists|i: int|
                0 <= i < machine@.len() && (#[trigger] machine@[i]).0@ == n@ && k
                    < machine@[i].1@.len() && rule_of_def(machine@[i].1@[k as int]).len() == 1
                    && !regex_compiles(rule_of_def(machine@[i].1@[k as int])[0].0),
            r matches Err(GrammarError::GroupMismatch(n, k)) ==> exists|i: int|
                0 <= i < machine@.len() && (#[trigger] machine@[i]).0@ == n@ && k
                    < machine@[i].1@.len() && rule_of_def(machine@[i].1@[k as int]).len() == 1
                    && !rule_fits(rule_of_def(machine@[i].1@[k as int])[0]),
            r matches Err(GrammarError::MissingRoot) ==> !def_names(machine@).contains("root"@),
            r matches Err(GrammarError::UnknownState(n)) ==> !def_names(machine@).contains(n@),
    {
        let ghost defs = machine@;
        let mut names: Vec<&'static str> = Vec::new();
        let mut states: Vec<State> = Vec::new();
        let mut i: usize = 0;
        while i < machine.len()
            invariant
                defs == machine@,
                0 <= i <= defs.len(),
                names@.len() == i,
                states@.len() == i,
                forall|q: int| 0 <= q < i ==> (#[trigger] names@[q]) == defs[q].0,
                forall|p: int, q: int|
                    0 <= p < q < i ==> (#[trigger] defs[p]).0@ != (#[trigger] defs[q]).0@,
                forall|q: int|
                    0 <= q < i ==> rule_views((#[trigger] states@[q]).0@)
                        == rules_of_defs(defs[q].1@),
                forall|q: int, k: int|
                    0 <= q < i && 0 <= k < defs[q].1@.len() ==> def_compiles(
                        #[trigger] defs[q].1@[k],
                    ),
            decreases defs.len() - i,
        {
            let (name, table) = machine[i];
            let mut q: usize = 0;
            while q < i
                invariant
                    defs == machine@,
                    0 <= q <= i,
                    i < defs.len(),
                    names@.len() == i,
                    name == defs[i as int].0,
                    forall|p: int| 0 <= p < i ==> (#[trigger] names@[p]) == defs[p].0,
                    forall|p: int| 0 <= p < q ==> (#[trigger] defs[p]).0@ != name@,
                decreases i - q,
            {
                if str_eq(names[q], name) {
                    assert(names@[q as int] == defs[q as int].0);
                    assert(defs[q as int].0@ == name@ && defs[i as int].0@ == name@);
                    assert(!defs_valid(defs));
                    return Err(GrammarError::DuplicateState(name));
                }
                q += 1;
            }
            let mut rules: Vec<Rule> = Vec::new();
            let mut k: usize = 0;
            while k < table.len()
                invariant
                    defs == machine@,
                    0 <= k <= table@.len(),
                    i < defs.len(),
                    table == defs[i as int].1,
                    name == defs[i as int].0,
                    rule_views(rules@) == rules_of_defs(table@.take(k as int)),
                    forall|p: int| 0 <= p < k ==> def_compiles(#[trigger] table@[p]),
                decreases table@.len() - k,
            {
                let d = table[k];
                let got = match d {
                    RuleDef::Regex(p, m, s) => Some(compile_rule(name, k, p, m, s)),
                    RuleDef::Words(_, _, _) => None,
                    RuleDef::Default(s) => Some(
                        compile_rule(name, k, "", MatchAction::Single(TokenType::Text), s),
                    ),
                };
                let ghost before = rules@;
                match got {
                    Some(Ok(rule)) => {
                        rules.push(rule);
                    },
                    Some(Err(e)) => {
                        assert(defs[i as int].1@[k as int] == d);
                        assert(rule_of_def(d).len() == 1);
                        assert(!def_compiles(d) && !defs_valid(defs)) by {
                            assert(!(regex_compiles(rule_of_def(d)[0].0) && rule_fits(
                                rule_of_def(d)[0],
                            )));
                        }
                        return Err(e);
                    },
                    None => {},
                }
                proof {
                    assert(table@.take(k + 1).drop_last() =~= table@.take(k as int));
                    assert(table@.take(k + 1).last() == d);
                    assert(rule_views(rules@) =~= rule_views(before) + rule_of_def(d));
                }
                k += 1;
            }
            proof {
                assert(table@.take(k as int) =~= table@);
            }
            names.push(name);
            states.push(State(rules));
            i += 1;
        }
        proof {
            assert(name_views(names@) =~= def_names(defs));
        }
        match position_of(&names, "root") {
            None => {
                return Err(GrammarError::MissingRoot);
            },
            Some(r) => {
                assert(name_views(names@)[r as int] == "root"@);
                assert(def_names(defs).contains("root"@));
            },
        }
        let mut i: usize = 0;
        while i < machine.len()
            invariant
                defs == machine@,
                0 <= i <= defs.len(),
                name_views(names@) == def_names(defs),
                forall|q: int, k: int|
                    0 <= q < i && 0 <= k < defs[q].1@.len() ==> def_targets_known(
                        #[trigger] defs[q].1@[k],
                        def_names(defs),
                    ),
            decreases defs.len() - i,
        {
            let table = machine[i].1;
            let mut k: usize = 0;
            while k < table.len()
                invariant
                    defs == machine@,
                    0 <= k <= table@.len(),
                    i < defs.len(),
                    table == defs[i as int].1,
                    name_views(names@) == def_names(defs),
                    forall|p: int| 0 <= p < k ==> def_targets_known(#[trigger] table@[p], def_names(defs)),
                decreases table@.len() - k,
            {
                let missing = match table[k] {
                    RuleDef::Regex(_, _, s) => unknown_target(s, &names),
                    RuleDef::Words(_, _, _) => None,
                    RuleDef::Default(s) => unknown_target(s, &names),
                };
                if let Some(n) = missing {
                    assert(!def_targets_known(table@[k as int], def_names(defs)));
                    assert(!defs_valid(defs));
                    return Err(GrammarError::UnknownState(n));
                }
                k += 1;
            }
            i += 1;
        }
        let m = Machine { names, states };
        proof {
            assert(defs_valid(defs));
            assert forall|i: int, j: int|
                0 <= i < m.states@.len() && 0 <= j < m.rules_at(i).len() implies rule_fits(
                #[trigger] m.rules_at(i)[j],
            ) && targets_known(m.rules_at(i)[j].2, m.names()) by {
                lemma_rule_origin(defs[i].1@, j);
                let k = choose|k: int|
                    0 <= k < defs[i].1@.len() && rule_of_def(#[trigger] defs[i].1@[k]).len() == 1
                        && rules_of_defs(defs[i].1@)[j] == rule_of_def(defs[i].1@[k])[0];
                assert(def_compiles(defs[i].1@[k]));
                assert(def_targets_known(defs[i].1@[k], def_names(defs)));
                assert(regex_compiles(rule_of_def(defs[i].1@[k])[0].0));
            }
        }
        Ok(m)
    }

    /// The state with a given name, which the grammar must define.
    pub fn get_state<'a>(&'a self, state: &str) -> (r: &'a State)
        requires
            self.wf(),
            self.names().contains(state@),
        ensures
            *r == self.states@[self.index_of(state@)],
    {
        let i = match self.find_state(state) {
            Some(i) => i,
            None => 0,
        };
        proof {
            self.lemma_index_of(i as int);
        }
        &self.states[i]
    }

    /// In a well-formed grammar a name's position is the one that holds it.
    pub proof fn lemma_index_of(&self, i: int)
        requires
            self.wf(),
            0 <= i < self.names@.len(),
        ensures
            self.index_of(self.names()[i]) == i,
            self.names().contains(self.names()[i]),
    {
        let n = self.names()[i];
        assert(self.names().contains(n));
        let j = self.names().index_of(n);
        assert(0 <= j < self.names().len() && self.names()[j] == n);
    }
}

} // verus!
