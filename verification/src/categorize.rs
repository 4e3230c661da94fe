//! Rule-based categorization: an ordered table of patterns and the category
//! that each stands for. A description gets the category of the first rule
//! whose pattern is found in its lower-cased form.

use vstd::prelude::*;
use vstd::string::*;
use crate::models::transaction::{Transaction, TransactionView};

verus! {

/// Whether the regex crate compiles `pattern` with its default settings.
pub uninterp spec fn regex_accepts(pattern: Seq<char>) -> bool;

/// Whether the regular expression `pattern` has a match anywhere in
/// `haystack`.
pub uninterp spec fn regex_finds(pattern: Seq<char>, haystack: Seq<char>) -> bool;

/// The lower-case form of `text` as the standard library defines it.
pub uninterp spec fn lowercase_of(text: Seq<char>) -> Seq<char>;

/// Searches `haystack` for a match of the regular expression `pattern`.
///
/// Calls the regex crate: `Regex::new` on the pattern and `Regex::is_match`
/// on the outcome. Trusted of it: the pattern alone decides whether it
/// compiles (`None` where it does not), and pattern and haystack alone decide
/// whether a match is found. What either outcome is on given texts is not
/// stated here.
///
/// The pattern is compiled on every call: a compiled expression is opaque to
/// the proofs, which speak of the text of the pattern.
#[verifier::external_body]
fn search(pattern: &str, haystack: &str) -> (found: Option<bool>)
    ensures
        found is Some <==> regex_accepts(pattern@),
        found matches Some(hit) ==> hit == regex_finds(pattern@, haystack@),
{
    match regex::Regex::new(pattern) {
        Ok(compiled) => Some(compiled.is_match(haystack)),
        Err(_) => None,
    }
}

/// The lower-case form of `text`.
///
/// Calls `str::to_lowercase` of the standard library. Trusted of it: the
/// result depends on the text alone. Which characters it changes is not
/// stated here.
#[verifier::external_body]
fn lowercase(text: &str) -> (lower: String)
    ensures
        lower@ == lowercase_of(text@),
{
    text.to_lowercase()
}

/// A pattern and the category assigned where the pattern is found.
#[derive(Debug, Clone, PartialEq, Eq)]
pub struct Rule {
    pub pattern: String,
    pub label: String,
}

/// Why a rule table was refused.
#[derive(Debug, Clone, Copy, PartialEq, Eq, Structural)]
pub enum RuleError {
    /// The pattern of the rule at this position is no regular expression.
    InvalidPattern(usize),
}

/// A category that a transaction is to be given.
#[derive(Debug, Clone, PartialEq, Eq)]
pub struct Assignment {
    pub id: i32,
    pub category: String,
}

impl View for Rule {
    type V = (Seq<char>, Seq<char>);

    /// The pattern and the label.
    open spec fn view(&self) -> (Seq<char>, Seq<char>) {
        (self.pattern@, self.label@)
    }
}

impl DeepView for Rule {
    type V = (Seq<char>, Seq<char>);

    open spec fn deep_view(&self) -> (Seq<char>, Seq<char>) {
        self@
    }
}

impl View for Assignment {
    type V = (int, Seq<char>);

    /// The identifier of the transaction and the category.
    open spec fn view(&self) -> (int, Seq<char>) {
        (self.id as int, self.category@)
    }
}

impl DeepView for Assignment {
    type V = (int, Seq<char>);

    open spec fn deep_view(&self) -> (int, Seq<char>) {
        self@
    }
}

/// The patterns of all rules are regular expressions.
pub open spec fn all_accepted(rules: Seq<(Seq<char>, Seq<char>)>) -> bool {
    forall|i: int| 0 <= i < rules.len() ==> regex_accepts((#[trigger] rules[i]).0)
}

/// The label of the first rule whose pattern is found in `text`.
pub open spec fn first_label(rules: Seq<(Seq<char>, Seq<char>)>, text: Seq<char>) -> Option<
    Seq<char>,
>
    decreases rules.len(),
{
    if rules.len() == 0 {
        None
    } else if regex_finds(rules[0].0, text) {
        Some(rules[0].1)
    } else {
        first_label(rules.drop_first(), text)
    }
}

/// The label of the first rule whose search found a match, where `outcomes`
/// holds what the search for each rule returned, in the order of the rules:
/// `Some(true)` for a match, `Some(false)` for none, `None` for a pattern
/// that did not compile. A rule without an outcome counts as not found.
pub open spec fn label_of_first_hit(
    rules: Seq<(Seq<char>, Seq<char>)>,
    outcomes: Seq<Option<bool>>,
) -> Option<Seq<char>>
    decreases rules.len(),
{
    if rules.len() == 0 || outcomes.len() == 0 {
        None
    } else if outcomes[0] == Some(true) {
        Some(rules[0].1)
    } else {
        label_of_first_hit(rules.drop_first(), outcomes.drop_first())
    }
}

/// Where each outcome is what the search of the rule's pattern in `text`
/// gives, the label of the first hit is the label of the first rule found.
pub proof fn lemma_first_hit_is_first_found(
    rules: Seq<(Seq<char>, Seq<char>)>,
    outcomes: Seq<Option<bool>>,
    text: Seq<char>,
)
    requires
        outcomes.len() == rules.len(),
        forall|i: int|
            0 <= i < rules.len() ==> #[trigger] outcomes[i] == Some(regex_finds(rules[i].0, text)),
    ensures
        label_of_first_hit(rules, outcomes) == first_label(rules, text),
    decreases rules.len(),
{
    if rules.len() > 0 {
        let rest = rules.drop_first();
        let later = outcomes.drop_first();
        assert(outcomes[0] == Some(regex_finds(rules[0].0, text)));
        assert forall|i: int| 0 <= i < rest.len() implies #[trigger] later[i] == Some(
            regex_finds(rest[i].0, text),
        ) by {
            assert(later[i] == outcomes[i + 1]);
            assert(rest[i] == rules[i + 1]);
        }
        lemma_first_hit_is_first_found(rest, later, text);
    }
}

/// The category of a description: none for an empty description, else the
/// label of the first rule found in its lower-case form.
pub open spec fn category_for(rules: Seq<(Seq<char>, Seq<char>)>, description: Seq<char>) -> Option<
    Seq<char>,
> {
    if description.len() == 0 {
        None
    } else {
        first_label(rules, lowercase_of(description))
    }
}

/// The five standard rules, in their order of precedence.
pub open spec fn standard_rules() -> Seq<(Seq<char>, Seq<char>)> {
    seq![
        ("uber|taxi|transport"@, "Transport"@),
        ("kaufland|carrefour|lidl|food"@, "Food"@),
        ("netflix|spotify|youtube"@, "Entertainment"@),
        ("rent|chirie"@, "Housing"@),
        ("salary|income|transfer"@, "IncomingTransfer"@),
    ]
}

/// A rule that is found takes precedence over every rule after it: the label
/// is that of the first rule found, whatever else is found further down.
pub proof fn lemma_first_rule_found_wins(
    rules: Seq<(Seq<char>, Seq<char>)>,
    text: Seq<char>,
    i: int,
)
    requires
        0 <= i < rules.len(),
        regex_finds(rules[i].0, text),
        forall|j: int| 0 <= j < i ==> !regex_finds((#[trigger] rules[j]).0, text),
    ensures
        first_label(rules, text) == Some(rules[i].1),
    decreases rules.len(),
{
    if i > 0 {
        let rest = rules.drop_first();
        assert forall|j: int| 0 <= j < i - 1 implies !regex_finds(
            (#[trigger] rest[j]).0,
            text,
        ) by {
            assert(rest[j] == rules[j + 1]);
        }
        lemma_first_rule_found_wins(rest, text, i - 1);
    }
}

/// Where no rule is found, there is no label.
pub proof fn lemma_no_rule_found_no_label(rules: Seq<(Seq<char>, Seq<char>)>, text: Seq<char>)
    requires
        forall|j: int| 0 <= j < rules.len() ==> !regex_finds((#[trigger] rules[j]).0, text),
    ensures
        first_label(rules, text) is None,
    decreases rules.len(),
{
    if rules.len() > 0 {
        let rest = rules.drop_first();
        assert forall|j: int| 0 <= j < rest.len() implies !regex_finds(
            (#[trigger] rest[j]).0,
            text,
        ) by {
            assert(rest[j] == rules[j + 1]);
        }
        lemma_no_rule_found_no_label(rest, text);
    }
}

/// With the standard rules, a description in whose lower-case form the
/// transport pattern is found is categorized as transport, whichever other
/// patterns are found in it as well.
pub proof fn lemma_transport_comes_first(description: Seq<char>)
    requires
        description.len() > 0,
        regex_finds("uber|taxi|transport"@, lowercase_of(description)),
    ensures
        category_for(standard_rules(), description) == Some("Transport"@),
{
}

/// An ordered rule table whose patterns are all regular expressions.
pub struct RuleSet {
    rules: Vec<Rule>,
}

impl View for RuleSet {
    type V = Seq<(Seq<char>, Seq<char>)>;

    closed spec fn view(&self) -> Seq<(Seq<char>, Seq<char>)> {
        self.rules.deep_view()
    }
}

impl RuleSet {
    #[verifier::type_invariant]
    spec fn patterns_accepted(self) -> bool {
        all_accepted(self.rules.deep_view())
    }

    /// Builds the table from `rules`, keeping their order. Fails at the first
    /// rule whose pattern is no regular expression.
    pub fn new(rules: Vec<Rule>) -> (result: Result<RuleSet, RuleError>)
        ensures
            result is Ok <==> all_accepted(rules.deep_view()),
            result matches Ok(set) ==> set@ == rules.deep_view(),
            result matches Err(RuleError::InvalidPattern(at)) ==> {
                &&& at < rules.len()
                &&& !regex_accepts(rules.deep_view()[at as int].0)
                &&& forall|j: int|
                    0 <= j < at ==> regex_accepts((#[trigger] rules.deep_view()[j]).0)
            },
    {
        let ghost views = rules.deep_view();
        let mut k: usize = 0;
        while k < rules.len()
            invariant
                k <= rules.len(),
                views == rules.deep_view(),
                forall|j: int| 0 <= j < k ==> regex_accepts((#[trigger] views[j]).0),
            decreases rules.len() - k,
        {
            assert(views[k as int] == rules[k as int]@);
            if search(rules[k].pattern.as_str(), "").is_none() {
                return Err(RuleError::InvalidPattern(k));
            }
            k = k + 1;
        }
        Ok(RuleSet { rules })
    }

    /// The table of the five standard rules. Fails where the regex crate
    /// refuses one of their patterns.
    pub fn standard() -> (result: Result<RuleSet, RuleError>)
        ensures
            result is Ok <==> all_accepted(standard_rules()),
            result matches Ok(set) ==> set@ == standard_rules(),
    {
        let mut rules: Vec<Rule> = Vec::new();
        rules.push(
            Rule { pattern: "uber|taxi|transport".to_owned(), label: "Transport".to_owned() },
        );
        rules.push(
            Rule { pattern: "kaufland|carrefour|lidl|food".to_owned(), label: "Food".to_owned() },
        );
        rules.push(
            Rule {
                pattern: "netflix|spotify|youtube".to_owned(),
                label: "Entertainment".to_owned(),
            },
        );
        rules.push(Rule { pattern: "rent|chirie".to_owned(), label: "Housing".to_owned() });
        rules.push(
            Rule {
                pattern: "salary|income|transfer".to_owned(),
                label: "IncomingTransfer".to_owned(),
            },
        );
        RuleSet::new(rules)
    }

    /// Number of rules in the table.
    pub fn len(&self) -> (n: usize)
        ensures
            n == self@.len(),
    {
        self.rules.len()
    }

    /// The label of the first rule whose search found a match, given what
    /// the searches returned, in the order of the rules.
    pub fn label_of_first_hit(&self, outcomes: &[Option<bool>]) -> (label: Option<String>)
        ensures
            label is Some <==> label_of_first_hit(self@, outcomes@) is Some,
            label matches Some(name) ==> label_of_first_hit(self@, outcomes@) == Some(name@),
    {
        let ghost views = self@;
        let mut k: usize = 0;
        assert(views.skip(0) =~= views);
        assert(outcomes@.skip(0) =~= outcomes@);
        while k < self.rules.len() && k < outcomes.len()
            invariant
                k <= self.rules.len(),
                k <= outcomes.len(),
                views == self@,
                label_of_first_hit(views, outcomes@) == label_of_first_hit(
                    views.skip(k as int),
                    outcomes@.skip(k as int),
                ),
            decreases self.rules.len() - k,
        {
            proof {
                assert(views.skip(k as int).drop_first() =~= views.skip(k + 1));
                assert(outcomes@.skip(k as int).drop_first() =~= outcomes@.skip(k + 1));
                assert(views.skip(k as int)[0] == self.rules[k as int]@);
                assert(outcomes@.skip(k as int)[0] == outcomes@[k as int]);
            }
            match outcomes[k] {
                Some(true) => {
                    return Some(self.rules[k].label.clone());
                },
                _ => {},
            }
            k = k + 1;
        }
        None
    }

    /// The category of `description`: none for an empty description, else
    /// the label of the first rule whose pattern is found in the lower-case
    /// form of the description. Every pattern is searched for; which label
    /// follows from the outcomes is decided by `label_of_first_hit`.
    pub fn classify(&self, description: &str) -> (label: Option<String>)
        ensures
            label is Some <==> category_for(self@, description@) is Some,
            label matches Some(name) ==> category_for(self@, description@) == Some(name@),
    {
        if description.is_empty() {
            return None;
        }
        let lower = lowercase(description);
        let ghost views = self@;
        let mut outcomes: Vec<Option<bool>> = Vec::new();
        let mut k: usize = 0;
        while k < self.rules.len()
            invariant
                k <= self.rules.len(),
                views == self@,
                outcomes.len() == k,
                forall|i: int|
                    0 <= i < k ==> #[trigger] outcomes[i] == Some(regex_finds(views[i].0, lower@)),
            decreases self.rules.len() - k,
        {
            proof {
                use_type_invariant(self);
                assert(views[k as int] == self.rules[k as int]@);
            }
            outcomes.push(search(self.rules[k].pattern.as_str(), lower.as_str()));
            k = k + 1;
        }
        proof {
            lemma_first_hit_is_first_found(views, outcomes@, lower@);
        }
        self.label_of_first_hit(outcomes.as_slice())
    }
}

/// The transaction has no category yet: none at all, or an empty one.
pub open spec fn lacks_category(t: TransactionView) -> bool {
    t.category matches Some(c) ==> c.len() == 0
}

/// The category that categorization gives a transaction: none where it has
/// one already or has no description.
pub open spec fn new_category(rules: Seq<(Seq<char>, Seq<char>)>, t: TransactionView) -> Option<
    Seq<char>,
> {
    if lacks_category(t) && t.description is Some {
        category_for(rules, t.description->0)
    } else {
        None
    }
}

/// The assignments that categorization makes, in the order of the
/// transactions: for each transaction that gets a category, its identifier
/// and that category.
pub open spec fn assignments_for(
    rules: Seq<(Seq<char>, Seq<char>)>,
    txs: Seq<TransactionView>,
) -> Seq<(int, Seq<char>)>
    decreases txs.len(),
{
    if txs.len() == 0 {
        seq![]
    } else {
        let earlier = assignments_for(rules, txs.drop_last());
        match new_category(rules, txs.last()) {
            Some(label) => earlier.push((txs.last().id, label)),
            None => earlier,
        }
    }
}

/// Categorizes the transactions that lack a category. Each one with a
/// description in which a rule is found gets the label of the first such
/// rule; the others are left as they are. Returns the assignments to be
/// written back, in the order of the transactions; their number is the number
/// of transactions updated.
pub fn categorize_transactions(rules: &RuleSet, txs: &[Transaction]) -> (assignments: Vec<
    Assignment,
>)
    ensures
        assignments.deep_view() == assignments_for(rules@, txs.deep_view()),
{
    let ghost all = txs.deep_view();
    let mut assignments: Vec<Assignment> = Vec::new();
    let mut k: usize = 0;
    while k < txs.len()
        invariant
            k <= txs.len(),
            all == txs.deep_view(),
            assignments.deep_view() == assignments_for(rules@, all.take(k as int)),
        decreases txs.len() - k,
    {
        let t = &txs[k];
        let ghost earlier = assignments.deep_view();
        proof {
            assert(all.take(k + 1).drop_last() =~= all.take(k as int));
            assert(all.take(k + 1).last() == t@);
        }
        let open = match &t.category {
            Some(c) => c.as_str().is_empty(),
            None => true,
        };
        if open {
            if let Some(description) = &t.description {
                if let Some(category) = rules.classify(description.as_str()) {
                    assignments.push(Assignment { id: t.id, category });
                    assert(assignments.deep_view() =~= earlier.push((t.id as int, category@)));
                }
            }
        }
        k = k + 1;
    }
    assert(all.take(k as int) =~= all);
    assignments
}

} // verus!
