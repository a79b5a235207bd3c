//! Changelog categories of commits.

use vstd::prelude::*;

use crate::commit::Commit;
use crate::text::{starts_with, str_starts_with, trim, trim_str};

verus! {

/// Commit categories based on conventional commit types, used for grouping
/// changes in the changelog. The order of the variants is the order of the
/// groups in a changelog.
#[derive(Debug, Clone, Copy, PartialEq, Eq, Structural, PartialOrd, Ord)]
pub enum Group {
    Breaking,
    Feat,
    Fix,
    Revert,
    Refactor,
    Perf,
    Doc,
    Style,
    Test,
    Chore,
    Ci,
    Miscellaneous,
}

impl Default for Group {
    fn default() -> (r: Self)
        ensures
            r == Group::Miscellaneous,
    {
        Group::Miscellaneous
    }
}

/// The group of a commit: breaking commits first, then the first commit type
/// prefix (in the order feat, fix, revert, refactor, perf, doc, style, test,
/// chore, ci) that starts the trimmed message; otherwise miscellaneous.
pub open spec fn spec_group(breaking: bool, raw_message: Seq<char>) -> Group {
    let m = trim(raw_message);
    if breaking {
        Group::Breaking
    } else if starts_with(m, "feat"@) {
        Group::Feat
    } else if starts_with(m, "fix"@) {
        Group::Fix
    } else if starts_with(m, "revert"@) {
        Group::Revert
    } else if starts_with(m, "refactor"@) {
        Group::Refactor
    } else if starts_with(m, "perf"@) {
        Group::Perf
    } else if starts_with(m, "doc"@) {
        Group::Doc
    } else if starts_with(m, "style"@) {
        Group::Style
    } else if starts_with(m, "test"@) {
        Group::Test
    } else if starts_with(m, "chore"@) {
        Group::Chore
    } else if starts_with(m, "ci"@) {
        Group::Ci
    } else {
        Group::Miscellaneous
    }
}

/// The heading a group is shown under in a changelog.
pub open spec fn group_label(g: Group) -> Seq<char> {
    match g {
        Group::Breaking => "<!-- 00 -->❌ Breaking"@,
        Group::Feat => "<!-- 01 -->🚀 Features"@,
        Group::Fix => "<!-- 02 -->🐛 Bug Fixes"@,
        Group::Revert => "<!-- 03 -->◀️ Revert"@,
        Group::Refactor => "<!-- 04 -->🚜 Refactor"@,
        Group::Perf => "<!-- 05 -->⚡ Performance"@,
        Group::Doc => "<!-- 06 -->📚 Documentation"@,
        Group::Style => "<!-- 07 -->🎨 Styling"@,
        Group::Test => "<!-- 08 -->🧪 Testing"@,
        Group::Chore => "<!-- 09 -->🧹 Chore"@,
        Group::Ci => "<!-- 10 -->⏩ CI/CD"@,
        Group::Miscellaneous => "<!-- 11 -->⚙️ Miscellaneous Tasks"@,
    }
}

/// The position of a group in changelog order.
pub open spec fn group_index(g: Group) -> u32 {
    match g {
        Group::Breaking => 0,
        Group::Feat => 1,
        Group::Fix => 2,
        Group::Revert => 3,
        Group::Refactor => 4,
        Group::Perf => 5,
        Group::Doc => 6,
        Group::Style => 7,
        Group::Test => 8,
        Group::Chore => 9,
        Group::Ci => 10,
        Group::Miscellaneous => 11,
    }
}

impl Group {
    /// The heading this group is shown under in a changelog.
    pub fn label(&self) -> (r: &'static str)
        ensures
            r@ == group_label(*self),
    {
        match self {
            Group::Breaking => "<!-- 00 -->❌ Breaking",
            Group::Feat => "<!-- 01 -->🚀 Features",
            Group::Fix => "<!-- 02 -->🐛 Bug Fixes",
            Group::Revert => "<!-- 03 -->◀️ Revert",
            Group::Refactor => "<!-- 04 -->🚜 Refactor",
            Group::Perf => "<!-- 05 -->⚡ Performance",
            Group::Doc => "<!-- 06 -->📚 Documentation",
            Group::Style => "<!-- 07 -->🎨 Styling",
            Group::Test => "<!-- 08 -->🧪 Testing",
            Group::Chore => "<!-- 09 -->🧹 Chore",
            Group::Ci => "<!-- 10 -->⏩ CI/CD",
            Group::Miscellaneous => "<!-- 11 -->⚙️ Miscellaneous Tasks",
        }
    }

    /// The position of this group in changelog order.
    pub fn index(&self) -> (r: u32)
        ensures
            r == group_index(*self),
    {
        match self {
            Group::Breaking => 0,
            Group::Feat => 1,
            Group::Fix => 2,
            Group::Revert => 3,
            Group::Refactor => 4,
            Group::Perf => 5,
            Group::Doc => 6,
            Group::Style => 7,
            Group::Test => 8,
            Group::Chore => 9,
            Group::Ci => 10,
            Group::Miscellaneous => 11,
        }
    }
}

/// Determines which changelog category a commit belongs to.
pub struct GroupParser {}

/// One rule of the group parser: a commit whose trimmed raw message starts
/// with `prefix` belongs to `group`; a rule without prefix takes breaking
/// commits.
#[derive(Debug, Clone, Copy)]
pub struct MessageGroupParser {
    pub prefix: Option<&'static str>,
    pub group: Group,
}

/// The rules of the group parser, in the order they are tried.
pub open spec fn parser_rules() -> Seq<(Option<Seq<char>>, Group)> {
    seq![
        (None, Group::Breaking),
        (Some("feat"@), Group::Feat),
        (Some("fix"@), Group::Fix),
        (Some("revert"@), Group::Revert),
        (Some("refactor"@), Group::Refactor),
        (Some("perf"@), Group::Perf),
        (Some("doc"@), Group::Doc),
        (Some("style"@), Group::Style),
        (Some("test"@), Group::Test),
        (Some("chore"@), Group::Chore),
        (Some("ci"@), Group::Ci),
    ]
}

/// The group of the first rule that takes the commit, miscellaneous when
/// none does.
pub open spec fn first_rule_group(rules: Seq<(Option<Seq<char>>, Group)>, breaking: bool, message: Seq<char>) -> Group
    decreases rules.len(),
{
    if rules.len() == 0 {
        Group::Miscellaneous
    } else if (match rules[0].0 {
        None => breaking,
        Some(p) => starts_with(message, p),
    }) {
        rules[0].1
    } else {
        first_rule_group(rules.drop_first(), breaking, message)
    }
}

/// Trying the rules in order gives the group of the commit.
proof fn lemma_rules_give_group(breaking: bool, message: Seq<char>)
    ensures
        first_rule_group(parser_rules(), breaking, trim(message)) == spec_group(breaking, message),
{
    reveal_with_fuel(first_rule_group, 12);
    let r = parser_rules();
    assert(r.drop_first().drop_first().drop_first().drop_first().drop_first().drop_first().drop_first().drop_first().drop_first().drop_first().drop_first().len() == 0);
}

/// The contents of a list of rules.
pub open spec fn rules_view(v: Seq<MessageGroupParser>) -> Seq<(Option<Seq<char>>, Group)> {
    v.map_values(|p: MessageGroupParser| (match p.prefix {
        Some(s) => Some(s@),
        None => None,
    }, p.group))
}

impl GroupParser {
    /// A new group parser.
    pub fn new() -> (r: Self) {
        GroupParser {}
    }

    /// The rules of this parser, in the order they are tried: breaking
    /// commits, then the commit type prefixes.
    pub fn get_parsers(&self) -> (r: Vec<MessageGroupParser>)
        ensures
            rules_view(r@) == parser_rules(),
    {
        let mut v: Vec<MessageGroupParser> = Vec::new();
        v.push(MessageGroupParser { prefix: None, group: Group::Breaking });
        v.push(MessageGroupParser { prefix: Some("feat"), group: Group::Feat });
        v.push(MessageGroupParser { prefix: Some("fix"), group: Group::Fix });
        v.push(MessageGroupParser { prefix: Some("revert"), group: Group::Revert });
        v.push(MessageGroupParser { prefix: Some("refactor"), group: Group::Refactor });
        v.push(MessageGroupParser { prefix: Some("perf"), group: Group::Perf });
        v.push(MessageGroupParser { prefix: Some("doc"), group: Group::Doc });
        v.push(MessageGroupParser { prefix: Some("style"), group: Group::Style });
        v.push(MessageGroupParser { prefix: Some("test"), group: Group::Test });
        v.push(MessageGroupParser { prefix: Some("chore"), group: Group::Chore });
        v.push(MessageGroupParser { prefix: Some("ci"), group: Group::Ci });
        assert(rules_view(v@) =~= parser_rules());
        v
    }

    /// The changelog category of `commit`: the group of the first rule that
    /// takes it.
    pub fn parse(&self, commit: &Commit) -> (r: Group)
        ensures
            r == spec_group(commit.breaking, commit.raw_message@),
    {
        let rules = self.get_parsers();
        let m = trim_str(commit.raw_message.as_str());
        let ghost rv = rules_view(rules@);
        proof { lemma_rules_give_group(commit.breaking, commit.raw_message@); }
        let mut i: usize = 0;
        assert(rv.subrange(0, rv.len() as int) =~= rv);
        while i < rules.len()
            invariant
                i <= rules@.len(),
                rv == rules_view(rules@),
                m@ == trim(commit.raw_message@),
                first_rule_group(rv, commit.breaking, m@) == spec_group(commit.breaking, commit.raw_message@),
                first_rule_group(rv, commit.breaking, m@) == first_rule_group(rv.subrange(i as int, rv.len() as int), commit.breaking, m@),
            decreases rules.len() - i,
        {
            let ghost rest = rv.subrange(i as int, rv.len() as int);
            assert(rest[0] == rv[i as int]);
            let rule = rules[i];
            assert(rv[i as int] == (match rule.prefix {
                Some(s) => Some(s@),
                None => None::<Seq<char>>,
            }, rule.group));
            let takes = match rule.prefix {
                None => commit.breaking,
                Some(p) => str_starts_with(m.as_str(), p),
            };
            if takes {
                return rule.group;
            }
            assert(rest.drop_first() =~= rv.subrange(i + 1, rv.len() as int));
            i = i + 1;
        }
        assert(rv.subrange(rv.len() as int, rv.len() as int) =~= Seq::<(Option<Seq<char>>, Group)>::empty());
        Group::Miscellaneous
    }
}

/// The group of a commit with breaking flag `breaking` and raw message
/// `raw_message`.
pub fn classify(breaking: bool, raw_message: &str) -> (r: Group)
    ensures
        r == spec_group(breaking, raw_message@),
{
    let parser = GroupParser::new();
    let mut commit = Commit::default();
    commit.breaking = breaking;
    commit.raw_message = raw_message.to_owned();
    parser.parse(&commit)
}

} // verus!
