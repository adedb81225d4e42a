//! Which category an imported file goes to.

use vstd::prelude::*;

use crate::paths::parent_directory;
#[allow(unused_imports)]
use crate::paths::{housed, path_parent_name, text_of};

verus! {

/// What is known about a file when it is imported.
#[derive(Debug, Clone, Copy)]
pub struct CategoryContext<'a> {
    /// The category that was asked for.
    pub explicit: Option<&'a str>,
    /// The group that the package of the file declares.
    pub group: Option<&'a str>,
}

impl<'a> Default for CategoryContext<'a> {
    fn default() -> (r: Self)
        ensures
            r.explicit is None,
            r.group is None,
    {
        CategoryContext { explicit: None, group: None }
    }
}

pub open spec fn slice_text(text: Option<&str>) -> Option<Seq<char>> {
    match text {
        Some(s) => Some(s@),
        None => None,
    }
}

/// A rule that may name a category.
pub trait CategoryRule: Send + Sync {
    /// The rule may give this answer.
    spec fn allows(
        &self,
        source: Seq<char>,
        ctx: CategoryContext<'_>,
        answer: Option<Seq<char>>,
    ) -> bool;

    /// The name of the rule, for logs.
    fn name(&self) -> &str;

    /// The category of the file at `source`, where the rule applies.
    fn apply(&self, source: &str, ctx: &CategoryContext<'_>) -> (r: Option<String>)
        ensures
            self.allows(source@, *ctx, text_of(r)),
    ;
}

/// Names the directory that the file lies in.
pub struct ParentDirectoryRule;

/// The answer of [`ParentDirectoryRule`] for the name of a directory.
pub open spec fn directory_answer(directory: Option<Seq<char>>) -> Option<Seq<char>> {
    match directory {
        Some(name) => if name.len() > 0 {
            Some(name)
        } else {
            None
        },
        None => None,
    }
}

impl CategoryRule for ParentDirectoryRule {
    open spec fn allows(
        &self,
        source: Seq<char>,
        ctx: CategoryContext<'_>,
        answer: Option<Seq<char>>,
    ) -> bool {
        housed(source) ==> exists|windows: bool|
            answer == directory_answer(#[trigger] path_parent_name(source, windows))
    }

    fn name(&self) -> (r: &str)
        ensures
            r@ == "parent-dir"@,
    {
        "parent-dir"
    }

    fn apply(&self, source: &str, ctx: &CategoryContext<'_>) -> (r: Option<String>) {
        let directory = parent_directory(source);
        let r = match directory {
            Some(name) => if name.as_str().is_empty() {
                None
            } else {
                Some(name)
            },
            None => None,
        };
        proof {
            if housed(source@) {
                let windows = choose|windows: bool| #[trigger]
                    path_parent_name(source@, windows) == text_of(directory);
                assert(text_of(r) == directory_answer(path_parent_name(source@, windows)));
            }
        }
        r
    }
}

/// Names the group that the package declares.
pub struct GroupNameRule;

impl CategoryRule for GroupNameRule {
    open spec fn allows(
        &self,
        source: Seq<char>,
        ctx: CategoryContext<'_>,
        answer: Option<Seq<char>>,
    ) -> bool {
        answer == slice_text(ctx.group)
    }

    fn name(&self) -> (r: &str)
        ensures
            r@ == "group-name"@,
    {
        "group-name"
    }

    fn apply(&self, source: &str, ctx: &CategoryContext<'_>) -> (r: Option<String>) {
        match ctx.group {
            Some(group) => Some(group.to_owned()),
            None => None,
        }
    }
}

/// One rule of a chain.
pub struct Link {
    pub rule: Box<dyn CategoryRule>,
}

/// Rules in the order in which they are asked.
pub struct RuleChain {
    rules: Vec<Link>,
}

/// The first of `rules` that answers decides; an empty name is no category.
pub open spec fn chain_allows(
    rules: Seq<Link>,
    source: Seq<char>,
    ctx: CategoryContext<'_>,
    category: Option<Seq<char>>,
) -> bool
    decreases rules.len(),
{
    if rules.len() == 0 {
        category is None
    } else {
        ||| rules[0].rule.allows(source, ctx, None) && chain_allows(
            rules.drop_first(),
            source,
            ctx,
            category,
        )
        ||| exists|name: Seq<char>| #[trigger]
            rules[0].rule.allows(source, ctx, Some(name))
                && category == directory_answer(Some(name))
    }
}

/// What a chain may resolve to: the explicit category where there is one, else what the
/// rules say.
pub open spec fn resolves_to(
    rules: Seq<Link>,
    source: Seq<char>,
    ctx: CategoryContext<'_>,
    category: Option<Seq<char>>,
) -> bool {
    match directory_answer(slice_text(ctx.explicit)) {
        Some(name) => category == Some(name),
        None => chain_allows(rules, source, ctx, category),
    }
}

impl RuleChain {
    /// The rules in order.
    pub closed spec fn rules(&self) -> Seq<Link> {
        self.rules@
    }

    /// A chain without rules.
    pub fn new() -> (r: RuleChain)
        ensures
            r.rules().len() == 0,
    {
        RuleChain { rules: Vec::new() }
    }

    /// Adds a rule that is asked after all others.
    pub fn push(&mut self, rule: Box<dyn CategoryRule>) -> (r: &mut Self)
        ensures
            r.rules() == old(self).rules().push(Link { rule }),
            *final(self) == *final(r),
    {
        self.rules.push(Link { rule });
        self
    }

    /// The category of the file at `source`; `None` sends it to the inbox.
    pub fn resolve(&self, source: &str, ctx: &CategoryContext<'_>) -> (r: Option<String>)
        ensures
            resolves_to(self.rules(), source@, *ctx, text_of(r)),
            ctx.explicit is Some && ctx.explicit->0@.len() > 0 ==> (r matches Some(name) && name@
                == ctx.explicit->0@),
            r matches Some(name) ==> name@.len() > 0,
            (ctx.explicit is None || ctx.explicit->0@.len() == 0) && self.rules().len() == 0 ==> r
                is None,
    {
        if let Some(explicit) = ctx.explicit {
            if !explicit.is_empty() {
                return Some(explicit.to_owned());
            }
        }
        let mut i: usize = 0;
        assert(self.rules@.skip(0) =~= self.rules@);
        while i < self.rules.len()
            invariant
                i <= self.rules@.len(),
                directory_answer(slice_text(ctx.explicit)) is None,
                forall|category: Option<Seq<char>>| #[trigger]
                    chain_allows(self.rules@.skip(i as int), source@, *ctx, category)
                        ==> chain_allows(self.rules@, source@, *ctx, category),
            decreases self.rules@.len() - i,
        {
            let ghost here = self.rules@.skip(i as int);
            let answer = self.rules[i].rule.apply(source, ctx);
            assert(here[0].rule.allows(source@, *ctx, text_of(answer)));
            if let Some(name) = answer {
                let r = if name.as_str().is_empty() {
                    None
                } else {
                    Some(name)
                };
                assert(chain_allows(here, source@, *ctx, text_of(r)));
                return r;
            }
            proof {
                let rest = self.rules@.skip(i + 1);
                assert(here.drop_first() =~= rest);
                assert forall|category: Option<Seq<char>>| #[trigger]
                    chain_allows(rest, source@, *ctx, category) implies chain_allows(
                    self.rules@,
                    source@,
                    *ctx,
                    category,
                ) by {
                    assert(chain_allows(here, source@, *ctx, category));
                }
            }
            i = i + 1;
        }
        proof {
            assert(chain_allows(self.rules@.skip(i as int), source@, *ctx, None));
        }
        None
    }
}

impl Default for RuleChain {
    fn default() -> (r: RuleChain)
        ensures
            r.rules().len() == 0,
    {
        RuleChain::new()
    }
}

/// What the default rules may resolve to.
pub open spec fn default_resolution(
    source: Seq<char>,
    ctx: CategoryContext<'_>,
    category: Option<Seq<char>>,
) -> bool {
    match (directory_answer(slice_text(ctx.explicit)), slice_text(ctx.group)) {
        (Some(name), _) => category == Some(name),
        (None, Some(group)) => category == directory_answer(Some(group)),
        (None, None) => housed(source) ==> exists|windows: bool|
            category == directory_answer(#[trigger] path_parent_name(source, windows)),
    }
}

fn group_name_link() -> (r: Link)
    ensures
        forall|source: Seq<char>, ctx: CategoryContext<'_>, answer: Option<Seq<char>>| #[trigger]
            r.rule.allows(source, ctx, answer) <==> GroupNameRule.allows(source, ctx, answer),
{
    Link { rule: Box::new(GroupNameRule) }
}

fn parent_directory_link() -> (r: Link)
    ensures
        forall|source: Seq<char>, ctx: CategoryContext<'_>, answer: Option<Seq<char>>| #[trigger]
            r.rule.allows(source, ctx, answer) <==> ParentDirectoryRule.allows(source, ctx, answer),
{
    Link { rule: Box::new(ParentDirectoryRule) }
}

/// The rules for imports: the declared group, then the directory.
pub fn default_import_chain() -> (r: RuleChain)
    ensures
        forall|source: Seq<char>, ctx: CategoryContext<'_>, category: Option<Seq<char>>|
            #[trigger] resolves_to(r.rules(), source, ctx, category) ==> default_resolution(
                source,
                ctx,
                category,
            ),
{
    let mut chain = RuleChain::new();
    let group = group_name_link();
    let directory = parent_directory_link();
    chain.rules.push(group);
    chain.rules.push(directory);
    proof {
        let rules = chain.rules();
        assert forall|source: Seq<char>, ctx: CategoryContext<'_>, category: Option<Seq<char>>|
            #[trigger] resolves_to(rules, source, ctx, category) implies default_resolution(
            source,
            ctx,
            category,
        ) by {
            reveal_with_fuel(chain_allows, 3);
            assert(rules == seq![group, directory]);
        }
    }
    chain
}

/// A rule of the chain always answers for the file.
pub open spec fn answered(rules: Seq<Link>, source: Seq<char>, ctx: CategoryContext<'_>) -> bool {
    exists|i: int| 0 <= i < rules.len() && !(#[trigger] rules[i]).rule.allows(source, ctx, None)
}

/// No rule of the chain answers for the file.
pub open spec fn unanswered(
    rules: Seq<Link>,
    source: Seq<char>,
    ctx: CategoryContext<'_>,
) -> bool {
    forall|i: int, answer: Option<Seq<char>>|
        0 <= i < rules.len() ==> (#[trigger] rules[i].rule.allows(source, ctx, answer) <==> answer
            is None)
}

/// A rule that is added later never overrides an earlier answer: where a rule of the chain
/// answers, the chain resolves to the same with the new rule as without it.
pub proof fn later_rules_do_not_override(
    rules: Seq<Link>,
    added: Link,
    source: Seq<char>,
    ctx: CategoryContext<'_>,
    category: Option<Seq<char>>,
)
    requires
        answered(rules, source, ctx),
    ensures
        chain_allows(rules.push(added), source, ctx, category) <==> chain_allows(
            rules,
            source,
            ctx,
            category,
        ),
        resolves_to(rules.push(added), source, ctx, category) <==> resolves_to(
            rules,
            source,
            ctx,
            category,
        ),
    decreases rules.len(),
{
    let more = rules.push(added);
    assert(more[0] == rules[0]);
    assert(more.drop_first() =~= rules.drop_first().push(added));
    if rules[0].rule.allows(source, ctx, None) {
        let i = choose|i: int|
            0 <= i < rules.len() && !(#[trigger] rules[i]).rule.allows(source, ctx, None);
        assert(rules.drop_first()[i - 1] == rules[i]);
        later_rules_do_not_override(rules.drop_first(), added, source, ctx, category);
    }
}

/// Where no rule of a chain answers, a rule that is added decides: the chain resolves to its
/// answer, and an empty name is no category.
pub proof fn an_added_rule_answers_for_silent_ones(
    rules: Seq<Link>,
    added: Link,
    source: Seq<char>,
    ctx: CategoryContext<'_>,
    category: Option<Seq<char>>,
)
    requires
        unanswered(rules, source, ctx),
    ensures
        chain_allows(rules.push(added), source, ctx, category) <==> exists|
            answer: Option<Seq<char>>,
        | #[trigger]
            added.rule.allows(source, ctx, answer) && category == directory_answer(answer),
        directory_answer(slice_text(ctx.explicit)) is None ==> (resolves_to(
            rules.push(added),
            source,
            ctx,
            category,
        ) <==> chain_allows(rules.push(added), source, ctx, category)),
    decreases rules.len(),
{
    let more = rules.push(added);
    if rules.len() == 0 {
        assert(more[0] == added);
        assert(more.drop_first().len() == 0);
        assert(chain_allows(more.drop_first(), source, ctx, category) <==> category is None);
        if added.rule.allows(source, ctx, None) && category is None {
            assert(category == directory_answer(None));
        }
        assert forall|answer: Option<Seq<char>>| #[trigger]
            added.rule.allows(source, ctx, answer) && category == directory_answer(
            answer,
        ) implies chain_allows(more, source, ctx, category) by {
            if let Some(name) = answer {
                assert(more[0].rule.allows(source, ctx, Some(name)));
            }
        }
    } else {
        let rest = rules.drop_first();
        assert(more[0] == rules[0]);
        assert(more.drop_first() =~= rest.push(added));
        assert forall|i: int, answer: Option<Seq<char>>| 0 <= i < rest.len() implies (#[trigger]
        rest[i].rule.allows(source, ctx, answer) <==> answer is None) by {
            assert(rest[i] == rules[i + 1]);
            assert(rules[i + 1].rule.allows(source, ctx, answer) <==> answer is None);
        }
        assert(rules[0].rule.allows(source, ctx, None));
        assert forall|name: Seq<char>| !#[trigger] rules[0].rule.allows(
            source,
            ctx,
            Some(name),
        ) by {}
        an_added_rule_answers_for_silent_ones(rest, added, source, ctx, category);
    }
}

/// The category that follows from the answers of the rules in order: the first name, unless
/// it is empty.
pub open spec fn first_answer(answers: Seq<Option<Seq<char>>>) -> Option<Seq<char>>
    decreases answers.len(),
{
    if answers.len() == 0 {
        None
    } else if answers[0] is Some {
        directory_answer(answers[0])
    } else {
        first_answer(answers.drop_first())
    }
}

/// Whatever the rules answer, the first name among their answers is what the chain may
/// resolve to; the answer of one more rule counts only where none of them gave a name.
pub proof fn the_first_answer_decides(
    rules: Seq<Link>,
    source: Seq<char>,
    ctx: CategoryContext<'_>,
    answers: Seq<Option<Seq<char>>>,
    last: Option<Seq<char>>,
)
    requires
        answers.len() == rules.len(),
        forall|i: int|
            0 <= i < rules.len() ==> (#[trigger] rules[i]).rule.allows(source, ctx, answers[i]),
    ensures
        chain_allows(rules, source, ctx, first_answer(answers)),
        (exists|i: int| 0 <= i < answers.len() && #[trigger] answers[i] is Some) ==> first_answer(
            answers.push(last),
        ) == first_answer(answers),
        (forall|i: int| 0 <= i < answers.len() ==> #[trigger] answers[i] is None) ==> first_answer(
            answers.push(last),
        ) == directory_answer(last),
    decreases rules.len(),
{
    let more = answers.push(last);
    if answers.len() == 0 {
        reveal_with_fuel(first_answer, 2);
        assert(more[0] == last);
        assert(more.drop_first().len() == 0);
    } else {
        let rest = answers.drop_first();
        assert(more[0] == answers[0]);
        assert(more.drop_first() =~= rest.push(last));
        assert(rules[0].rule.allows(source, ctx, answers[0]));
        assert forall|i: int| 0 <= i < rules.drop_first().len() implies (#[trigger]
        rules.drop_first()[i]).rule.allows(source, ctx, rest[i]) by {
            assert(rules[i + 1].rule.allows(source, ctx, answers[i + 1]));
        }
        the_first_answer_decides(rules.drop_first(), source, ctx, rest, last);
        if answers[0] is None && exists|i: int| 0 <= i < answers.len() && #[trigger]
            answers[i] is Some {
            let i = choose|i: int| 0 <= i < answers.len() && #[trigger] answers[i] is Some;
            assert(rest[i - 1] is Some);
        }
        if forall|i: int| 0 <= i < answers.len() ==> #[trigger] answers[i] is None {
            assert(answers[0] is None);
            assert forall|i: int| 0 <= i < rest.len() implies #[trigger] rest[i] is None by {
                assert(answers[i + 1] is None);
            }
        }
    }
}

/// What the default rules resolve to: a category that was asked for, as it is; else the group
/// that the package declares, as it is; else the name of the directory. An empty name never
/// becomes a category.
pub proof fn default_rules_ask_the_group_before_the_directory(
    source: Seq<char>,
    ctx: CategoryContext<'_>,
    category: Option<Seq<char>>,
)
    requires
        default_resolution(source, ctx, category),
    ensures
        ctx.explicit is Some && ctx.explicit->0@.len() > 0 ==> category == Some(ctx.explicit->0@),
        (ctx.explicit is None || ctx.explicit->0@.len() == 0) && ctx.group is Some
            ==> (if ctx.group->0@.len()
            > 0 {
            category == Some(ctx.group->0@)
        } else {
            category is None
        }),
        (ctx.explicit is None || ctx.explicit->0@.len() == 0) && ctx.group is None && housed(source)
            ==> category == path_parent_name(source, true) || category == path_parent_name(
            source,
            false,
        ) || (category is None && (path_parent_name(source, true) == Some(Seq::<char>::empty())
            || path_parent_name(source, false) == Some(Seq::<char>::empty()))),
{
    if (ctx.explicit is None || ctx.explicit->0@.len() == 0) && ctx.group is None && housed(
        source,
    ) {
        let windows = choose|windows: bool|
            category == directory_answer(#[trigger] path_parent_name(source, windows));
        if let Some(name) = path_parent_name(source, windows) {
            if name.len() == 0 {
                assert(name =~= Seq::<char>::empty());
            }
        }
    }
}

/// The rule of the group answers with the group as it was declared, that of the directory
/// with the name of the directory.
pub proof fn rules_answer_with_names(
    source: Seq<char>,
    ctx: CategoryContext<'_>,
    answer: Option<Seq<char>>,
)
    ensures
        GroupNameRule.allows(source, ctx, answer) <==> match ctx.group {
            Some(group) => answer == Some(group@),
            None => answer is None,
        },
        ParentDirectoryRule.allows(source, ctx, answer) && housed(source) && answer is Some
            ==> answer->0.len() > 0 && (answer == path_parent_name(source, true) || answer
            == path_parent_name(source, false)),
{
}

/// A chain resolves to the name that its first answering rule gives, whatever the rules behind
/// it say; to nothing where that name is empty, or where it has no rules.
pub proof fn the_first_rule_that_answers_decides(
    first: Link,
    rest: Seq<Link>,
    source: Seq<char>,
    ctx: CategoryContext<'_>,
    name: Seq<char>,
    category: Option<Seq<char>>,
)
    ensures
        chain_allows(Seq::<Link>::empty(), source, ctx, category) <==> category is None,
        (forall|answer: Option<Seq<char>>| #[trigger]
            first.rule.allows(source, ctx, answer) <==> answer == Some(name)) ==> (chain_allows(
            seq![first] + rest,
            source,
            ctx,
            category,
        ) <==> (name.len() > 0 && category == Some(name)) || (name.len() == 0 && category is None)),
        (forall|answer: Option<Seq<char>>| #[trigger]
            first.rule.allows(source, ctx, answer) <==> answer is None) ==> (chain_allows(
            seq![first] + rest,
            source,
            ctx,
            category,
        ) <==> chain_allows(rest, source, ctx, category)),
{
    let rules = seq![first] + rest;
    assert(rules[0] == first);
    assert(rules.drop_first() =~= rest);
    if forall|answer: Option<Seq<char>>| #[trigger]
        first.rule.allows(source, ctx, answer) <==> answer == Some(name) {
        assert(!first.rule.allows(source, ctx, None));
        assert(first.rule.allows(source, ctx, Some(name)));
        assert(rules[0].rule.allows(source, ctx, Some(name)));
    }
    if forall|answer: Option<Seq<char>>| #[trigger]
        first.rule.allows(source, ctx, answer) <==> answer is None {
        assert(rules[0].rule.allows(source, ctx, None));
        assert forall|n: Seq<char>| !#[trigger] rules[0].rule.allows(source, ctx, Some(n)) by {}
    }
}

} // verus!
