//! The pattern catalog: rules that recognise a task description, kept in
//! order of priority.

use vstd::prelude::*;
use vstd::string::StringExecFns;
use regex::Regex;
use crate::planner::error::Error;
use crate::regex_api::{
    capture_names,
    captures,
    compile,
    group_names,
    leftmost_match,
    pattern_compiles,
    made_by_new,
    regex_source,
};
use crate::pairs::{lemma_put, put, put_pair, unique_keys};
use crate::text::{clone_pairs, clone_strings, replace, replace_all, str_eq};

verus! {

/// A rule: an expression that recognises a task, and the template of the code
/// for it.
#[derive(Debug)]
pub struct Pattern {
    /// Identifier of the rule.
    pub id: String,
    /// The regular expression.
    pub regex: String,
    /// Rules of higher priority come first.
    pub priority: u8,
    /// Tags of the rule.
    pub tags: Vec<String>,
    /// The template, with `{{name}}` placeholders for capture groups.
    pub template: String,
    /// What the rule recognises.
    pub description: String,
}

/// What a [`Pattern`] holds.
pub struct PatternView {
    pub id: Seq<char>,
    pub regex: Seq<char>,
    pub priority: u8,
    pub tags: Seq<Seq<char>>,
    pub template: Seq<char>,
    pub description: Seq<char>,
}

impl View for Pattern {
    type V = PatternView;

    open spec fn view(&self) -> PatternView {
        PatternView {
            id: self.id@,
            regex: self.regex@,
            priority: self.priority,
            tags: self.tags.deep_view(),
            template: self.template@,
            description: self.description@,
        }
    }
}

impl DeepView for Pattern {
    type V = PatternView;

    open spec fn deep_view(&self) -> PatternView {
        self@
    }
}

impl Clone for Pattern {
    fn clone(&self) -> (r: Self)
        ensures
            r@ == self@,
    {
        Pattern {
            id: self.id.clone(),
            regex: self.regex.clone(),
            priority: self.priority,
            tags: clone_strings(&self.tags),
            template: self.template.clone(),
            description: self.description.clone(),
        }
    }
}

/// The result of matching one rule against a task description.
#[derive(Debug)]
pub struct PatternMatch {
    /// Identifier of the rule that matched.
    pub pattern_id: String,
    /// The named capture groups that took part in the match, each with the
    /// text it captured, in the order of the groups in the expression. In a
    /// match that the catalog made no name stands twice.
    pub capture_groups: Vec<(String, String)>,
    /// The rule's template.
    pub template: String,
    /// The rule's tags.
    pub tags: Vec<String>,
}

/// What a [`PatternMatch`] holds.
pub struct PatternMatchView {
    pub pattern_id: Seq<char>,
    pub capture_groups: Seq<(Seq<char>, Seq<char>)>,
    pub template: Seq<char>,
    pub tags: Seq<Seq<char>>,
}

impl View for PatternMatch {
    type V = PatternMatchView;

    open spec fn view(&self) -> PatternMatchView {
        PatternMatchView {
            pattern_id: self.pattern_id@,
            capture_groups: self.capture_groups.deep_view(),
            template: self.template@,
            tags: self.tags.deep_view(),
        }
    }
}

impl DeepView for PatternMatch {
    type V = PatternMatchView;

    open spec fn deep_view(&self) -> PatternMatchView {
        self@
    }
}

impl Clone for PatternMatch {
    fn clone(&self) -> (r: Self)
        ensures
            r@ == self@,
    {
        PatternMatch {
            pattern_id: self.pattern_id.clone(),
            capture_groups: clone_pairs(&self.capture_groups),
            template: self.template.clone(),
            tags: clone_strings(&self.tags),
        }
    }
}

/// The placeholder that stands for the capture group `name`.
pub open spec fn placeholder(name: Seq<char>) -> Seq<char> {
    "{{"@ + name + "}}"@
}

/// `template` with the placeholders of `captures` filled in, one capture
/// after the other.
pub open spec fn rendered(template: Seq<char>, captures: Seq<(Seq<char>, Seq<char>)>) -> Seq<char>
    decreases captures.len(),
{
    if captures.len() == 0 {
        template
    } else {
        replace_all(
            rendered(template, captures.drop_last()),
            placeholder(captures.last().0),
            captures.last().1,
        )
    }
}

/// A template without captures renders to itself.
pub proof fn lemma_rendered_without_captures(template: Seq<char>)
    ensures
        rendered(template, Seq::empty()) == template,
{
}

impl PatternMatch {
    /// Fills the captured groups into the template: every `{{name}}` of a
    /// captured group becomes the captured text; any other placeholder stays
    /// as it is.
    pub fn apply_template(&self) -> (r: String)
        ensures
            r@ == rendered(self.template@, self.capture_groups.deep_view()),
    {
        let mut result = self.template.clone();
        let mut i: usize = 0;
        while i < self.capture_groups.len()
            invariant
                i <= self.capture_groups.len(),
                result@ == rendered(self.template@, self.capture_groups.deep_view().take(i as int)),
            decreases self.capture_groups.len() - i,
        {
            let ghost done = self.capture_groups.deep_view().take(i as int);
            let ghost next = self.capture_groups.deep_view().take(i + 1);
            let mut key = String::from_str("{{");
            key.append(self.capture_groups[i].0.as_str());
            key.append("}}");
            result = replace(result.as_str(), key.as_str(), self.capture_groups[i].1.as_str());
            proof {
                assert(next.drop_last() =~= done);
                assert(next.last() == self.capture_groups.deep_view()[i as int]);
            }
            i += 1;
        }
        assert(self.capture_groups.deep_view().take(self.capture_groups.len() as int)
            =~= self.capture_groups.deep_view());
        result
    }
}

/// The named groups of a match: for each group that has a name and took part
/// in the match, the name and the captured text, in the order of the groups.
/// Should a name come a second time, its text takes the place of the first.
pub open spec fn named_captures(
    names: Seq<Option<Seq<char>>>,
    groups: Seq<Option<Seq<char>>>,
) -> Seq<(Seq<char>, Seq<char>)>
    decreases names.len(),
{
    if names.len() == 0 {
        Seq::empty()
    } else {
        let rest = named_captures(names.drop_last(), groups);
        let i = names.len() - 1;
        if i < groups.len() && names[i] is Some && groups[i] is Some {
            put(rest, names[i]->0, groups[i]->0)
        } else {
            rest
        }
    }
}

/// Among the named groups of a match no name stands twice.
pub proof fn lemma_named_captures_unique(
    names: Seq<Option<Seq<char>>>,
    groups: Seq<Option<Seq<char>>>,
)
    ensures
        unique_keys(named_captures(names, groups)),
    decreases names.len(),
{
    if names.len() > 0 {
        lemma_named_captures_unique(names.drop_last(), groups);
        let i = names.len() - 1;
        if i < groups.len() && names[i] is Some && groups[i] is Some {
            lemma_put(named_captures(names.drop_last(), groups), names[i]->0, groups[i]->0);
        }
    }
}

/// In every match of a task no capture name stands twice.
pub proof fn lemma_matches_unique_names(ps: Seq<PatternView>, text: Seq<char>, k: int)
    requires
        0 <= k < matches_of(ps, text).len(),
    ensures
        unique_keys(matches_of(ps, text)[k].capture_groups),
    decreases ps.len(),
{
    if ps.len() > 0 {
        let rest = matches_of(ps.drop_last(), text);
        if k < rest.len() {
            lemma_matches_unique_names(ps.drop_last(), text, k);
        } else {
            match leftmost_match(ps.last().regex, text) {
                Some(groups) => {
                    lemma_named_captures_unique(group_names(ps.last().regex), groups);
                },
                None => {},
            }
        }
    }
}

/// Pairs the names of the capture groups with what the groups captured.
pub fn collect_named(names: &Vec<Option<String>>, groups: &Vec<Option<String>>) -> (r: Vec<
    (String, String),
>)
    ensures
        r.deep_view() == named_captures(names.deep_view(), groups.deep_view()),
        unique_keys(r.deep_view()),
{
    let mut out: Vec<(String, String)> = Vec::new();
    let mut i: usize = 0;
    assert(out.deep_view() =~= named_captures(names.deep_view().take(0), groups.deep_view()));
    while i < names.len()
        invariant
            i <= names.len(),
            unique_keys(out.deep_view()),
            out.deep_view() == named_captures(names.deep_view().take(i as int), groups.deep_view()),
        decreases names.len() - i,
    {
        let ghost next = names.deep_view().take(i + 1);
        proof {
            assert(next.drop_last() =~= names.deep_view().take(i as int));
            assert(next.last() == names.deep_view()[i as int]);
        }
        if i < groups.len() {
            match (&names[i], &groups[i]) {
                (Some(name), Some(value)) => {
                    put_pair(&mut out, name.clone(), value.clone());
                },
                _ => {},
            }
        }
        i += 1;
    }
    assert(names.deep_view().take(names.len() as int) =~= names.deep_view());
    out
}

/// What matching the rule `p` against `text` gives.
pub open spec fn match_of(p: PatternView, text: Seq<char>) -> Option<PatternMatchView> {
    match leftmost_match(p.regex, text) {
        None => None,
        Some(groups) => Some(
            PatternMatchView {
                pattern_id: p.id,
                capture_groups: named_captures(group_names(p.regex), groups),
                template: p.template,
                tags: p.tags,
            },
        ),
    }
}

/// The matches of the rules `ps` against `text`, in the order of the rules.
pub open spec fn matches_of(ps: Seq<PatternView>, text: Seq<char>) -> Seq<PatternMatchView>
    decreases ps.len(),
{
    if ps.len() == 0 {
        Seq::empty()
    } else {
        let rest = matches_of(ps.drop_last(), text);
        match match_of(ps.last(), text) {
            Some(m) => rest.push(m),
            None => rest,
        }
    }
}

/// The rules of `ps` whose expression matches somewhere in `text`, in the
/// order of `ps`.
pub open spec fn matching(ps: Seq<PatternView>, text: Seq<char>) -> Seq<PatternView>
    decreases ps.len(),
{
    if ps.len() == 0 {
        Seq::empty()
    } else if leftmost_match(ps.last().regex, text) is Some {
        matching(ps.drop_last(), text).push(ps.last())
    } else {
        matching(ps.drop_last(), text)
    }
}

/// Where a rule of priority `priority` goes into `ps`: behind the last rule
/// whose priority is not lower.
pub open spec fn priority_point(ps: Seq<PatternView>, priority: u8) -> int
    decreases ps.len(),
{
    if ps.len() == 0 {
        0
    } else if ps.last().priority >= priority {
        ps.len() as int
    } else {
        priority_point(ps.drop_last(), priority)
    }
}

/// `ps` with the rule `p` added at its place.
pub open spec fn with_pattern(ps: Seq<PatternView>, p: PatternView) -> Seq<PatternView> {
    ps.insert(priority_point(ps, p.priority), p)
}

/// The catalog that holds the rules `ps`, added one after the other.
pub open spec fn catalog_of(ps: Seq<PatternView>) -> Seq<PatternView>
    decreases ps.len(),
{
    if ps.len() == 0 {
        Seq::empty()
    } else {
        with_pattern(catalog_of(ps.drop_last()), ps.last())
    }
}

/// `ps` without the rules whose identifier is `id`.
pub open spec fn without_id(ps: Seq<PatternView>, id: Seq<char>) -> Seq<PatternView>
    decreases ps.len(),
{
    if ps.len() == 0 {
        Seq::empty()
    } else if ps.last().id == id {
        without_id(ps.drop_last(), id)
    } else {
        without_id(ps.drop_last(), id).push(ps.last())
    }
}

/// Priorities never rise along `ps`.
pub open spec fn by_priority(ps: Seq<PatternView>) -> bool {
    forall|a: int, b: int| 0 <= a < b < ps.len() ==> ps[a].priority >= ps[b].priority
}

/// Every expression of `ps` compiles.
pub open spec fn all_compile(ps: Seq<PatternView>) -> bool {
    forall|i: int| 0 <= i < ps.len() ==> pattern_compiles(#[trigger] ps[i].regex)
}

/// The insert point splits `ps` into priorities that are not lower, then
/// priorities that are lower.
pub proof fn lemma_priority_point(ps: Seq<PatternView>, priority: u8)
    ensures
        0 <= priority_point(ps, priority) <= ps.len(),
        forall|j: int|
            priority_point(ps, priority) <= j < ps.len() ==> (#[trigger] ps[j]).priority < priority,
        priority_point(ps, priority) > 0 ==> ps[priority_point(ps, priority) - 1].priority
            >= priority,
    decreases ps.len(),
{
    if ps.len() > 0 && ps.last().priority < priority {
        let front = ps.drop_last();
        lemma_priority_point(front, priority);
        assert forall|j: int| priority_point(ps, priority) <= j < ps.len() implies (
        #[trigger] ps[j]).priority < priority by {
            if j < front.len() {
                assert(front[j] == ps[j]);
            }
        }
    }
}

/// Adding a rule to an ordered catalog leaves it ordered, one rule longer,
/// with the new rule behind every rule of the same priority.
pub proof fn lemma_with_pattern_ordered(ps: Seq<PatternView>, p: PatternView)
    requires
        by_priority(ps),
    ensures
        by_priority(with_pattern(ps, p)),
        with_pattern(ps, p).len() == ps.len() + 1,
        with_pattern(ps, p)[priority_point(ps, p.priority)] == p,
{
    lemma_priority_point(ps, p.priority);
    let k = priority_point(ps, p.priority);
    let next = with_pattern(ps, p);
    assert forall|a: int, b: int| 0 <= a < b < next.len() implies next[a].priority
        >= next[b].priority by {
        if b < k {
        } else if b == k {
            if k > 0 {
                assert(a == k - 1 || ps[a].priority >= ps[k - 1].priority);
            }
        } else if a == k {
            assert(next[b] == ps[b - 1]);
        } else if a < k {
            assert(next[b] == ps[b - 1]);
        } else {
            assert(next[a] == ps[a - 1]);
            assert(next[b] == ps[b - 1]);
        }
    }
}

/// A catalog built from any list of rules is ordered by priority and holds as
/// many rules as the list.
pub proof fn lemma_catalog_ordered(ps: Seq<PatternView>)
    ensures
        by_priority(catalog_of(ps)),
        catalog_of(ps).len() == ps.len(),
    decreases ps.len(),
{
    if ps.len() > 0 {
        lemma_catalog_ordered(ps.drop_last());
        lemma_with_pattern_ordered(catalog_of(ps.drop_last()), ps.last());
    }
}

/// An ordered catalog without its last rule is ordered.
pub proof fn lemma_front_ordered(ps: Seq<PatternView>)
    requires
        by_priority(ps),
        ps.len() > 0,
    ensures
        by_priority(ps.drop_last()),
{
    let front = ps.drop_last();
    assert forall|a: int, b: int| 0 <= a < b < front.len() implies front[a].priority
        >= front[b].priority by {
        assert(front[a] == ps[a] && front[b] == ps[b]);
    }
}

/// Removing rules from an ordered catalog leaves it ordered, and what stays
/// was there before.
pub proof fn lemma_without_id_ordered(ps: Seq<PatternView>, id: Seq<char>)
    requires
        by_priority(ps),
    ensures
        by_priority(without_id(ps, id)),
        forall|k: int|
            0 <= k < without_id(ps, id).len() ==> ps.contains(#[trigger] without_id(ps, id)[k])
                && without_id(ps, id)[k].id != id,
    decreases ps.len(),
{
    if ps.len() > 0 {
        let front = ps.drop_last();
        let kept = without_id(front, id);
        lemma_front_ordered(ps);
        lemma_without_id_ordered(front, id);
        assert forall|k: int| 0 <= k < kept.len() implies ps.contains(#[trigger] kept[k])
            && kept[k].priority >= ps.last().priority by {
            assert(front.contains(kept[k]));
            let a = choose|a: int| 0 <= a < front.len() && front[a] == kept[k];
            assert(ps[a] == kept[k]);
        }
        if ps.last().id != id {
            let next = kept.push(ps.last());
            assert(ps[ps.len() - 1] == ps.last());
            assert forall|k: int| 0 <= k < next.len() implies ps.contains(#[trigger] next[k])
                && next[k].id != id by {
                if k < kept.len() {
                    assert(next[k] == kept[k]);
                }
            }
        }
    }
}

/// The matches of a task are the matches of the rules that match it, one
/// for one and in their order; over an ordered catalog the priorities of
/// those rules never rise, so the match of the highest priority comes first.
pub proof fn lemma_matches_by_priority(ps: Seq<PatternView>, text: Seq<char>)
    requires
        by_priority(ps),
    ensures
        matches_of(ps, text).len() == matching(ps, text).len(),
        forall|k: int|
            0 <= k < matching(ps, text).len() ==> Some(#[trigger] matches_of(ps, text)[k])
                == match_of(matching(ps, text)[k], text),
        forall|k: int|
            0 <= k < matching(ps, text).len() ==> ps.contains(#[trigger] matching(ps, text)[k]),
        by_priority(matching(ps, text)),
    decreases ps.len(),
{
    if ps.len() > 0 {
        let front = ps.drop_last();
        let kept = matching(front, text);
        lemma_front_ordered(ps);
        lemma_matches_by_priority(front, text);
        assert forall|k: int| 0 <= k < kept.len() implies ps.contains(#[trigger] kept[k])
            && kept[k].priority >= ps.last().priority by {
            assert(front.contains(kept[k]));
            let a = choose|a: int| 0 <= a < front.len() && front[a] == kept[k];
            assert(ps[a] == kept[k]);
        }
        if leftmost_match(ps.last().regex, text) is Some {
            let next = kept.push(ps.last());
            assert(ps[ps.len() - 1] == ps.last());
            assert forall|k: int| 0 <= k < next.len() implies ps.contains(#[trigger] next[k]) by {
                if k < kept.len() {
                    assert(next[k] == kept[k]);
                }
            }
        }
    }
}

struct Compiled {
    pattern: Pattern,
    regex: Regex,
}

/// The compiled expression was made by `Regex::new` from the expression of
/// the rule it stands with.
spec fn faithful(c: Compiled) -> bool {
    made_by_new(c.regex) && regex_source(c.regex) == c.pattern.regex@
}

/// The catalog of rules, each with its compiled expression.
pub struct PatternMatcher {
    patterns: Vec<Compiled>,
}

impl View for PatternMatcher {
    type V = Seq<PatternView>;

    /// The rules of the catalog, in the order in which they are tried.
    closed spec fn view(&self) -> Seq<PatternView> {
        Seq::new(self.patterns.len() as nat, |i: int| self.patterns[i].pattern@)
    }
}

impl PatternMatcher {
    /// The catalog is in order of priority, and every rule stands with the
    /// compiled form of its own expression.
    pub closed spec fn wf(&self) -> bool {
        &&& by_priority(self@)
        &&& forall|i: int| 0 <= i < self.patterns.len() ==> faithful(#[trigger] self.patterns[i])
    }

    /// In a well-formed catalog priorities never rise.
    pub proof fn lemma_wf_ordered(&self)
        requires
            self.wf(),
        ensures
            by_priority(self@),
    {
    }

    /// A catalog of the given rules. Fails, with the engine's message, where
    /// the expression of one of them does not compile.
    pub fn new(patterns: Vec<Pattern>) -> (r: Result<Self, Error>)
        ensures
            r is Ok == all_compile(patterns.deep_view()),
            r matches Ok(m) ==> m.wf() && m@ == catalog_of(patterns.deep_view()),
            r matches Err(e) ==> e is InvalidPattern,
    {
        let mut matcher = PatternMatcher { patterns: Vec::new() };
        let mut i: usize = 0;
        assert(matcher@ =~= catalog_of(patterns.deep_view().take(0)));
        while i < patterns.len()
            invariant
                i <= patterns.len(),
                matcher.wf(),
                matcher@ == catalog_of(patterns.deep_view().take(i as int)),
                all_compile(patterns.deep_view().take(i as int)),
            decreases patterns.len() - i,
        {
            let ghost done = patterns.deep_view().take(i as int);
            let ghost next = patterns.deep_view().take(i + 1);
            proof {
                assert(next.drop_last() =~= done);
                assert(next.last() == patterns[i as int]@);
            }
            match matcher.add_pattern(patterns[i].clone()) {
                Ok(()) => {
                    assert forall|j: int| 0 <= j < next.len() implies pattern_compiles(
                        #[trigger] next[j].regex,
                    ) by {
                        if j < i {
                            assert(next[j] == done[j]);
                        }
                    }
                },
                Err(e) => {
                    assert(!pattern_compiles(patterns.deep_view()[i as int].regex));
                    return Err(e);
                },
            }
            i += 1;
        }
        assert(patterns.deep_view().take(patterns.len() as int) =~= patterns.deep_view());
        Ok(matcher)
    }

    /// Matches `text` against every rule. A rule contributes a match where
    /// its expression matches anywhere in the text; the matches come in the
    /// order of the catalog, highest priority first.
    pub fn match_task(&self, task_description: &str) -> (r: Vec<PatternMatch>)
        requires
            self.wf(),
        ensures
            r.deep_view() == matches_of(self@, task_description@),
            forall|k: int| 0 <= k < r.len() ==> unique_keys(#[trigger] r[k].capture_groups.deep_view()),
    {
        let mut matches: Vec<PatternMatch> = Vec::new();
        let mut i: usize = 0;
        assert(matches.deep_view() =~= matches_of(self@.take(0), task_description@));
        while i < self.patterns.len()
            invariant
                i <= self.patterns.len(),
                self.wf(),
                matches.deep_view() == matches_of(self@.take(i as int), task_description@),
            decreases self.patterns.len() - i,
        {
            let ghost before = matches.deep_view();
            proof {
                assert(self@.take(i + 1).drop_last() =~= self@.take(i as int));
                assert(self@.take(i + 1).last() == self.patterns[i as int].pattern@);
            }
            let entry = &self.patterns[i];
            match captures(&entry.regex, task_description) {
                Some(groups) => {
                    let names = capture_names(&entry.regex);
                    let found = PatternMatch {
                        pattern_id: entry.pattern.id.clone(),
                        capture_groups: collect_named(&names, &groups),
                        template: entry.pattern.template.clone(),
                        tags: clone_strings(&entry.pattern.tags),
                    };
                    assert(Some(found@) == match_of(entry.pattern@, task_description@));
                    matches.push(found);
                    assert(matches.deep_view() =~= before.push(found@));
                },
                None => {},
            }
            i += 1;
        }
        assert(self@.take(self.patterns.len() as int) =~= self@);
        assert forall|k: int| 0 <= k < matches.len() implies unique_keys(
            #[trigger] matches[k].capture_groups.deep_view(),
        ) by {
            assert(matches.deep_view()[k] == matches[k]@);
            lemma_matches_unique_names(self@, task_description@, k);
        }
        matches
    }

    /// Adds a rule at its place by priority, behind the rules of the same
    /// priority. Fails, and leaves the catalog as it was, where the rule's
    /// expression does not compile.
    pub fn add_pattern(&mut self, pattern: Pattern) -> (r: Result<(), Error>)
        requires
            old(self).wf(),
        ensures
            final(self).wf(),
            r is Ok == pattern_compiles(pattern.regex@),
            r is Ok ==> final(self)@ == with_pattern(old(self)@, pattern@),
            r matches Err(e) ==> e is InvalidPattern && final(self)@ == old(self)@,
    {
        let regex = match compile(pattern.regex.as_str()) {
            Ok(regex) => regex,
            Err(e) => {
                return Err(Error::InvalidPattern(e));
            },
        };
        let priority = pattern.priority;
        let ghost before = self@;
        let ghost added = pattern@;
        let mut p: usize = self.patterns.len();
        assert(before.take(p as int) =~= before);
        while p > 0 && self.patterns[p - 1].pattern.priority < priority
            invariant
                p <= self.patterns.len(),
                before == self@,
                priority_point(before, priority) == priority_point(before.take(p as int), priority),
            decreases p,
        {
            assert(before.take(p as int).drop_last() =~= before.take(p - 1));
            p -= 1;
        }
        assert(priority_point(before, priority) == p) by {
            if p > 0 {
                assert(before.take(p as int).last() == before[p - 1]);
            }
        }
        self.patterns.insert(p, Compiled { pattern, regex });
        proof {
            assert(self@ =~= with_pattern(before, added));
            lemma_with_pattern_ordered(before, added);
        }
        Ok(())
    }

    /// Removes every rule with the identifier `pattern_id`.
    pub fn remove_pattern(&mut self, pattern_id: &str)
        requires
            old(self).wf(),
        ensures
            final(self).wf(),
            final(self)@ == without_id(old(self)@, pattern_id@),
    {
        let ghost before = self@;
        let ghost mut j: int = 0;
        let mut i: usize = 0;
        assert(self@.take(0) =~= without_id(before.take(0), pattern_id@));
        assert(self@.skip(0) =~= before.skip(0));
        while i < self.patterns.len()
            invariant
                i <= self.patterns.len(),
                0 <= j <= before.len(),
                self@.take(i as int) == without_id(before.take(j), pattern_id@),
                self@.skip(i as int) == before.skip(j),
                forall|k: int|
                    0 <= k < self.patterns.len() ==> faithful(#[trigger] self.patterns[k]),
            decreases self.patterns.len() - i,
        {
            let ghost current = self@;
            proof {
                assert(current.len() == self.patterns.len());
                assert(current.skip(i as int).len() == before.skip(j).len());
                assert(j < before.len());
                assert(current.skip(i as int)[0] == before.skip(j)[0]);
                assert(before.take(j + 1).drop_last() =~= before.take(j));
                assert(before.take(j + 1).last() == current[i as int]);
            }
            if str_eq(self.patterns[i].pattern.id.as_str(), pattern_id) {
                self.patterns.remove(i);
                proof {
                    assert(self@ =~= current.remove(i as int));
                    assert(self@.take(i as int) =~= current.take(i as int));
                    assert(self@.skip(i as int) =~= current.skip(i as int).skip(1));
                    assert(before.skip(j + 1) =~= before.skip(j).skip(1));
                }
            } else {
                proof {
                    assert(current.take(i + 1) =~= current.take(i as int).push(current[i as int]));
                    assert(current.skip(i + 1) =~= current.skip(i as int).skip(1));
                    assert(before.skip(j + 1) =~= before.skip(j).skip(1));
                }
                i += 1;
            }
            proof {
                j = j + 1;
            }
        }
        proof {
            assert(self@.take(i as int) =~= self@);
            assert(before.skip(j).len() == 0);
            assert(before.take(j) =~= before);
            lemma_without_id_ordered(before, pattern_id@);
        }
    }

    /// The rules of the catalog, in the order in which they are tried.
    pub fn get_patterns(&self) -> (r: Vec<Pattern>)
        ensures
            r.deep_view() == self@,
    {
        let mut out: Vec<Pattern> = Vec::new();
        let mut i: usize = 0;
        while i < self.patterns.len()
            invariant
                i <= self.patterns.len(),
                out.len() == i,
                forall|j: int| 0 <= j < i ==> out[j]@ == self.patterns[j].pattern@,
            decreases self.patterns.len() - i,
        {
            out.push(self.patterns[i].pattern.clone());
            i += 1;
        }
        assert(out.deep_view() =~= self@);
        out
    }
}

} // verus!
