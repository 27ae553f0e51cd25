//! Skills: texts that teach the model a workflow. Which of several of one name counts,
//! which are active, and how they read in the prompt.

use crate::text;
use crate::text_map;
use crate::text::{
    concat3, concat5, decimal_text, from_chars, rsplit_once, same_text, to_chars, trim,
};
use crate::text_map::TextMap;
use vstd::prelude::*;

verus! {

/// The longest that a skill may be, in tokens.
pub const MAX_SKILL_TOKENS: usize = 3000;

/// How many characters of text are taken for a token.
pub const CHARS_PER_TOKEN: usize = 4;

/// When a skill is active.
#[derive(Debug, Clone, Copy, PartialEq, Eq, Structural)]
pub enum SkillActivation {
    /// When its tools are ready and its variables are set.
    Auto,
    Always,
    /// Never by itself.
    Manual,
}

#[derive(Debug, PartialEq, Eq)]
pub struct SkillMetadata {
    pub name: String,
    pub description: String,
    pub activation: SkillActivation,
    pub requires: Vec<String>,
    pub env_vars: Vec<String>,
    pub priority: i32,
}

#[derive(Debug, PartialEq, Eq)]
pub struct Skill {
    pub metadata: SkillMetadata,
    pub content: String,
    pub source_path: String,
}

#[derive(Debug, PartialEq, Eq)]
pub struct RenderedSkill {
    pub name: String,
    pub content: String,
    pub priority: i32,
}

/// Which tools are ready for use.
#[derive(Debug, Clone, Copy, PartialEq, Eq, Structural)]
pub struct ToolAvailability {
    pub shell: bool,
    pub browser: bool,
}

/// Why a file is no skill.
#[derive(Debug, PartialEq, Eq)]
pub enum SkillLoadError {
    Io { path: String, error: String },
    Parse { path: String, message: String },
    TokenCap { path: String, estimated: usize, max: usize },
}

impl SkillLoadError {
    /// What the error says.
    pub open spec fn message(self) -> Seq<char> {
        match self {
            SkillLoadError::Io { path, error } => "failed to read "@ + path@ + ": "@ + error@,
            SkillLoadError::Parse { path, message } => "failed to parse skill at "@ + path@ + ": "@
                + message@,
            SkillLoadError::TokenCap { path, estimated, max } => "skill at "@ + path@
                + " exceeds token cap ("@ + text::decimal(estimated as nat) + " estimated > "@ + text::decimal(
                max as nat,
            ) + " max)"@,
        }
    }

    /// What the error says.
    pub fn to_text(&self) -> (r: String)
        ensures
            r@ == self.message(),
    {
        match self {
            SkillLoadError::Io { path, error } => {
                let mut out = concat3("failed to read ", path.as_str(), ": ");
                out.append(error.as_str());
                out
            },
            SkillLoadError::Parse { path, message } => {
                let mut out = concat3("failed to parse skill at ", path.as_str(), ": ");
                out.append(message.as_str());
                out
            },
            SkillLoadError::TokenCap { path, estimated, max } => {
                let count = decimal_text(*estimated as u64);
                let limit = decimal_text(*max as u64);
                let mut out = concat5(
                    "skill at ",
                    path.as_str(),
                    " exceeds token cap (",
                    count.as_str(),
                    " estimated > ",
                );
                out.append(limit.as_str());
                out.append(" max)");
                out
            },
        }
    }
}

/// What the front matter of a file says, if it has one, and the text behind it.
#[derive(Debug, PartialEq, Eq)]
pub struct ParsedSkill {
    pub metadata: Option<SkillMetadata>,
    pub content: String,
}

/// How many tokens a text is taken for.
pub open spec fn token_estimate(content: Seq<char>) -> nat {
    content.len() / CHARS_PER_TOKEN as nat
}

/// Takes a parsed file as a skill. It has to have front matter and to fit the token
/// cap.
pub fn parse_skill_file(path: &str, parsed: ParsedSkill) -> (r: Result<Skill, SkillLoadError>)
    ensures
        match r {
            Ok(skill) => {
                &&& parsed.metadata == Some(skill.metadata)
                &&& token_estimate(parsed.content@) <= MAX_SKILL_TOKENS
                &&& skill.content == parsed.content
                &&& skill.source_path@ == path@
            },
            Err(SkillLoadError::Parse { path: at, message }) => {
                &&& parsed.metadata is None
                &&& at@ == path@
                &&& message@ == "missing YAML frontmatter"@
            },
            Err(SkillLoadError::TokenCap { path: at, estimated, max }) => {
                &&& parsed.metadata is Some
                &&& token_estimate(parsed.content@) > MAX_SKILL_TOKENS
                &&& at@ == path@
                &&& estimated == token_estimate(parsed.content@)
                &&& max == MAX_SKILL_TOKENS
            },
            Err(SkillLoadError::Io { .. }) => false,
        },
{
    match parsed.metadata {
        None => Err(
            SkillLoadError::Parse {
                path: path.to_owned(),
                message: "missing YAML frontmatter".to_owned(),
            },
        ),
        Some(metadata) => {
            let estimated: usize = to_chars(parsed.content.as_str()).len() / CHARS_PER_TOKEN;
            if estimated > MAX_SKILL_TOKENS {
                return Err(
                    SkillLoadError::TokenCap {
                        path: path.to_owned(),
                        estimated,
                        max: MAX_SKILL_TOKENS,
                    },
                );
            }
            Ok(Skill { metadata, content: parsed.content, source_path: path.to_owned() })
        },
    }
}

/// The letter in lower case, if it is an ASCII letter.
pub open spec fn ascii_lower(c: char) -> char {
    if 'A' <= c <= 'Z' {
        ((c as int) + 32) as char
    } else {
        c
    }
}

/// A name that ends in `.md`, in either case, with something before the dot.
pub open spec fn is_markdown_name(file_name: Seq<char>) -> bool {
    let at = text::last_index(file_name, '.');
    &&& at > 0
    &&& file_name.len() == at + 3
    &&& ascii_lower(file_name[at + 1]) == 'm'
    &&& ascii_lower(file_name[at + 2]) == 'd'
}

/// Whether a file in a directory of skills is one: a file, and a markdown file by its
/// name.
pub fn is_skill_file(is_file: bool, file_name: &str) -> (r: bool)
    ensures
        r == (is_file && is_markdown_name(file_name@)),
{
    if !is_file {
        return false;
    }
    proof {
        lemma_last_index(file_name@, '.');
    }
    match rsplit_once(file_name, '.') {
        None => false,
        Some((stem, extension)) => {
            let chars = to_chars(extension.as_str());
            if stem.as_str().is_empty() || chars.len() != 2 {
                return false;
            }
            (chars[0] == 'm' || chars[0] == 'M') && (chars[1] == 'd' || chars[1] == 'D')
        },
    }
}

proof fn lemma_last_index(s: Seq<char>, separator: char)
    ensures
        -1 <= text::last_index(s, separator) < s.len(),
    decreases s.len(),
{
    if s.len() > 0 && s.last() != separator {
        lemma_last_index(s.drop_last(), separator);
    }
}

/// The last of these skills that has that name.
pub open spec fn last_named(skills: Seq<Skill>, name: Seq<char>) -> Option<Skill>
    decreases skills.len(),
{
    if skills.len() == 0 {
        None
    } else if skills.last().metadata.name@ == name {
        Some(skills.last())
    } else {
        last_named(skills.drop_last(), name)
    }
}

/// One skill comes before another: it has the smaller priority, or the same and a name
/// that comes before.
pub open spec fn skill_before(one: Skill, other: Skill) -> bool {
    one.metadata.priority < other.metadata.priority || (one.metadata.priority
        == other.metadata.priority && text::text_less(one.metadata.name@, other.metadata.name@))
}

pub open spec fn are_ordered(skills: Seq<Skill>) -> bool {
    forall|i: int, j: int|
        #![trigger skills[i], skills[j]]
        0 <= i < j < skills.len() ==> skill_before(skills[i], skills[j])
}

/// The skills of a directory come to those of the directories before it, and take the
/// place of those of the same names.
fn add_skills(by_name: &mut TextMap<Skill>, skills: Vec<Skill>, Ghost(before): Ghost<Seq<Skill>>)
    requires
        old(by_name).well_formed(),
        forall|name: Seq<char>| #[trigger]
            old(by_name)@.dom().contains(name) <==> last_named(before, name) is Some,
        forall|name: Seq<char>| #[trigger]
            old(by_name)@.dom().contains(name) ==> last_named(before, name) == Some(
                old(by_name)@[name],
            ),
    ensures
        final(by_name).well_formed(),
        forall|name: Seq<char>| #[trigger]
            final(by_name)@.dom().contains(name) <==> last_named(before + skills@, name) is Some,
        forall|name: Seq<char>| #[trigger]
            final(by_name)@.dom().contains(name) ==> last_named(before + skills@, name) == Some(
                final(by_name)@[name],
            ),
{
    let ghost all = skills@;
    proof {
        assert(before + all.take(0) =~= before);
    }
    for skill in it: skills
        invariant
            it.seq() == all,
            by_name.well_formed(),
            forall|name: Seq<char>| #[trigger]
                by_name@.dom().contains(name) <==> last_named(
                    before + all.take(it.index() as int),
                    name,
                ) is Some,
            forall|name: Seq<char>| #[trigger]
                by_name@.dom().contains(name) ==> last_named(
                    before + all.take(it.index() as int),
                    name,
                ) == Some(by_name@[name]),
    {
        proof {
            let at = it.index() as int;
            let more = before + all.take(at + 1);
            assert(more.drop_last() =~= before + all.take(at));
            assert(more.last() == skill);
        }
        let name = skill.metadata.name.clone();
        by_name.insert(name, skill);
    }
    proof {
        assert(all.take(all.len() as int) =~= all);
    }
}

/// Where the next skill belongs: behind all whose priority is not greater.
fn place_for(skills: &Vec<Skill>, priority: i32) -> (r: usize)
    requires
        are_ordered(skills@),
    ensures
        r <= skills.len(),
        forall|i: int| 0 <= i < r ==> (#[trigger] skills@[i]).metadata.priority <= priority,
        forall|i: int|
            r <= i < skills.len() ==> (#[trigger] skills@[i]).metadata.priority > priority,
{
    let mut i: usize = 0;
    while i < skills.len() && skills[i].metadata.priority <= priority
        invariant
            i <= skills.len(),
            forall|k: int| 0 <= k < i ==> (#[trigger] skills@[k]).metadata.priority <= priority,
        decreases skills.len() - i,
    {
        i += 1;
    }
    proof {
        assert forall|k: int| i <= k < skills.len() implies (
        #[trigger] skills@[k]).metadata.priority > priority by {
            if k > i {
                assert(skill_before(skills@[i as int], skills@[k]));
            }
        }
    }
    i
}

/// Puts skills in order that stand in the order of their names.
fn sort_by_priority(entries: Vec<(String, Skill)>) -> (r: Vec<Skill>)
    requires
        text_map::is_sorted(text_map::keys_of(entries@)),
        forall|i: int|
            0 <= i < entries@.len() ==> (#[trigger] entries@[i]).0@ == entries@[i].1.metadata.name@,
    ensures
        are_ordered(r@),
        forall|skill: Skill|
            r@.contains(skill) <==> exists|i: int|
                0 <= i < entries@.len() && (#[trigger] entries@[i]).1 == skill,
{
    let ghost all = entries@;
    let mut skills: Vec<Skill> = Vec::new();
    for entry in it: entries
        invariant
            it.seq() == all,
            text_map::is_sorted(text_map::keys_of(all)),
            forall|i: int|
                0 <= i < all.len() ==> (#[trigger] all[i]).0@ == all[i].1.metadata.name@,
            are_ordered(skills@),
            forall|skill: Skill| #[trigger]
                skills@.contains(skill) <==> exists|i: int|
                    0 <= i < it.index() && (#[trigger] all[i]).1 == skill,
    {
        let ghost before = skills@;
        let ghost n = it.index() as int;
        let skill = entry.1;
        let at: usize = place_for(&skills, skill.metadata.priority);
        proof {
            assert forall|k: int| 0 <= k < before.len() implies text::text_less(
                (#[trigger] before[k]).metadata.name@,
                skill.metadata.name@,
            ) by {
                assert(before.contains(before[k]));
                let i = choose|i: int| 0 <= i < n && (#[trigger] all[i]).1 == before[k];
                assert(text_map::keys_of(all)[i] == all[i].0@);
                assert(text_map::keys_of(all)[n] == all[n].0@);
            }
        }
        skills.insert(at, skill);
        proof {
            let after = skills@;
            assert(after =~= before.insert(at as int, skill));
            assert forall|i: int, j: int|
                #![trigger after[i], after[j]]
                0 <= i < j < after.len() implies skill_before(after[i], after[j]) by {
                if i < at && j < at {
                    assert(after[i] == before[i] && after[j] == before[j]);
                } else if i < at && j == at {
                    assert(after[i] == before[i]);
                } else if i < at {
                    assert(after[i] == before[i] && after[j] == before[j - 1]);
                } else if i == at {
                    assert(after[j] == before[j - 1]);
                } else {
                    assert(after[i] == before[i - 1] && after[j] == before[j - 1]);
                }
            }
            assert forall|s: Skill| #[trigger]
                after.contains(s) <==> exists|i: int|
                    0 <= i < n + 1 && (#[trigger] all[i]).1 == s by {
                if after.contains(s) {
                    let k = choose|k: int| 0 <= k < after.len() && after[k] == s;
                    if k < at {
                        assert(before[k] == s);
                        assert(before.contains(s));
                    } else if k > at {
                        assert(before[k - 1] == s);
                        assert(before.contains(s));
                    } else {
                        assert(all[n].1 == s);
                    }
                }
                if exists|i: int| 0 <= i < n + 1 && (#[trigger] all[i]).1 == s {
                    let i = choose|i: int| 0 <= i < n + 1 && (#[trigger] all[i]).1 == s;
                    if i == n {
                        assert(after[at as int] == s);
                    } else {
                        assert(before.contains(s));
                        let k = choose|k: int| 0 <= k < before.len() && before[k] == s;
                        if k < at {
                            assert(after[k] == s);
                        } else {
                            assert(after[k + 1] == s);
                        }
                    }
                }
            }
        }
    }
    skills
}

/// The skills that count, out of those of the system, of the user and of the
/// workspace: of several of one name the last, in the order of their priorities.
pub fn discover_skills(system: Vec<Skill>, user: Vec<Skill>, workspace: Vec<Skill>) -> (r: Vec<
    Skill,
>)
    ensures
        are_ordered(r@),
        forall|skill: Skill| #[trigger]
            r@.contains(skill) <==> last_named(
                system@ + user@ + workspace@,
                skill.metadata.name@,
            ) == Some(skill),
{
    let ghost all = system@ + user@ + workspace@;
    let mut by_name: TextMap<Skill> = TextMap::new();
    let ghost none = Seq::<Skill>::empty();
    proof {
        assert(none + system@ =~= system@);
    }
    add_skills(&mut by_name, system, Ghost(none));
    add_skills(&mut by_name, user, Ghost(system@));
    add_skills(&mut by_name, workspace, Ghost(system@ + user@));
    let ghost entries = by_name.entries@;
    proof {
        assert forall|i: int| 0 <= i < entries.len() implies (#[trigger] entries[i]).0@
            == entries[i].1.metadata.name@ && last_named(all, entries[i].0@) == Some(
            entries[i].1,
        ) by {
            lemma_entry(entries, i);
            assert(by_name@.dom().contains(entries[i].0@));
            lemma_last_named(all, entries[i].0@);
        }
        assert forall|skill: Skill| last_named(all, skill.metadata.name@) == Some(skill) implies (
        exists|i: int| 0 <= i < entries.len() && (#[trigger] entries[i]).1 == skill) by {
            let name = skill.metadata.name@;
            assert(by_name@.dom().contains(name));
            let i = text_map::keys_of(entries).index_of(name);
            assert(text_map::keys_of(entries)[i] == name);
            assert(entries[i].0@ == name);
        }
    }
    let r = sort_by_priority(by_name.entries);
    proof {
        assert forall|skill: Skill| #[trigger] r@.contains(skill) <==> last_named(
            all,
            skill.metadata.name@,
        ) == Some(skill) by {
            if r@.contains(skill) {
                let i = choose|i: int| 0 <= i < entries.len() && (#[trigger] entries[i]).1 == skill;
                assert(entries[i].0@ == skill.metadata.name@);
            }
        }
    }
    r
}

proof fn lemma_entry(entries: Seq<(String, Skill)>, i: int)
    requires
        text_map::is_sorted(text_map::keys_of(entries)),
        0 <= i < entries.len(),
    ensures
        text_map::mapping(entries).dom().contains(entries[i].0@),
        text_map::mapping(entries)[entries[i].0@] == entries[i].1,
{
    let keys = text_map::keys_of(entries);
    assert(keys[i] == entries[i].0@);
    let at = keys.index_of(entries[i].0@);
    assert(keys.contains(entries[i].0@));
    assert(0 <= at < keys.len() && keys[at] == entries[i].0@);
    if at != i {
        crate::text::law_texts_are_ordered(keys[at], keys[i]);
        crate::text::law_texts_are_ordered(keys[i], keys[at]);
    }
}

proof fn lemma_last_named(skills: Seq<Skill>, name: Seq<char>)
    ensures
        last_named(skills, name) matches Some(skill) ==> skill.metadata.name@ == name,
    decreases skills.len(),
{
    if skills.len() > 0 {
        lemma_last_named(skills.drop_last(), name);
    }
}

/// A skill of the workspace takes the place of every other of its name.
pub proof fn law_workspace_skill_wins(lower: Seq<Skill>, workspace: Seq<Skill>, name: Seq<char>)
    ensures
        last_named(workspace, name) is Some ==> last_named(lower + workspace, name) == last_named(
            workspace,
            name,
        ),
        last_named(workspace, name) is None ==> last_named(lower + workspace, name) == last_named(
            lower,
            name,
        ),
    decreases workspace.len(),
{
    if workspace.len() == 0 {
        assert(lower + workspace =~= lower);
    } else {
        assert((lower + workspace).drop_last() =~= lower + workspace.drop_last());
        assert((lower + workspace).last() == workspace.last());
        law_workspace_skill_wins(lower, workspace.drop_last(), name);
    }
}

/// A tool is ready. Unknown tools never are.
pub open spec fn tool_is_ready(tool_name: Seq<char>, availability: ToolAvailability) -> bool {
    if tool_name == "shell_exec"@ {
        availability.shell
    } else if tool_name == "browser"@ {
        availability.browser
    } else {
        false
    }
}

/// Whether a tool is ready.
pub fn is_tool_ready(tool_name: &str, availability: &ToolAvailability) -> (r: bool)
    ensures
        r == tool_is_ready(tool_name@, *availability),
{
    if same_text(tool_name, "shell_exec") {
        availability.shell
    } else if same_text(tool_name, "browser") {
        availability.browser
    } else {
        false
    }
}

/// A skill is active: always, or by itself once all its tools are ready and all its
/// variables are set.
pub open spec fn is_active(
    metadata: SkillMetadata,
    availability: ToolAvailability,
    env: Map<Seq<char>, String>,
) -> bool {
    match metadata.activation {
        SkillActivation::Always => true,
        SkillActivation::Manual => false,
        SkillActivation::Auto => {
            &&& forall|i: int|
                0 <= i < metadata.requires@.len() ==> tool_is_ready(
                    #[trigger] metadata.requires@[i]@,
                    availability,
                )
            &&& forall|i: int|
                0 <= i < metadata.env_vars@.len() ==> env.dom().contains(
                    #[trigger] metadata.env_vars@[i]@,
                )
        },
    }
}

fn active(metadata: &SkillMetadata, availability: &ToolAvailability, env: &TextMap<String>) -> (r:
    bool)
    requires
        env.well_formed(),
    ensures
        r == is_active(*metadata, *availability, env@),
{
    match metadata.activation {
        SkillActivation::Always => true,
        SkillActivation::Manual => false,
        SkillActivation::Auto => {
            let mut i: usize = 0;
            while i < metadata.requires.len()
                invariant
                    i <= metadata.requires.len(),
                    metadata.activation == SkillActivation::Auto,
                    forall|k: int|
                        0 <= k < i ==> tool_is_ready(
                            #[trigger] metadata.requires@[k]@,
                            *availability,
                        ),
                decreases metadata.requires.len() - i,
            {
                if !is_tool_ready(metadata.requires[i].as_str(), availability) {
                    return false;
                }
                i += 1;
            }
            let mut k: usize = 0;
            while k < metadata.env_vars.len()
                invariant
                    k <= metadata.env_vars.len(),
                    env.well_formed(),
                    metadata.activation == SkillActivation::Auto,
                    forall|j: int|
                        0 <= j < k ==> env@.dom().contains(#[trigger] metadata.env_vars@[j]@),
                decreases metadata.env_vars.len() - k,
            {
                if !env.contains_key(metadata.env_vars[k].as_str()) {
                    return false;
                }
                k += 1;
            }
            true
        },
    }
}

/// The active ones of these skills, in their order.
pub open spec fn active_skills(
    skills: Seq<Skill>,
    availability: ToolAvailability,
    env: Map<Seq<char>, String>,
) -> Seq<Skill> {
    skills.filter(|skill: Skill| is_active(skill.metadata, availability, env))
}

/// The active ones of these skills, in their order.
pub fn evaluate_activation<'a>(
    skills: &'a Vec<Skill>,
    availability: &ToolAvailability,
    env: &TextMap<String>,
) -> (r: Vec<&'a Skill>)
    requires
        env.well_formed(),
    ensures
        r@.map_values(|skill: &Skill| *skill) == active_skills(skills@, *availability, env@),
{
    let mut out: Vec<&'a Skill> = Vec::new();
    let mut i: usize = 0;
    let ghost test = |skill: Skill| is_active(skill.metadata, *availability, env@);
    proof {
        reveal(Seq::filter);
        assert(skills@.take(0) =~= Seq::empty());
        assert(out@.map_values(|skill: &Skill| *skill) =~= skills@.take(0).filter(test));
    }
    while i < skills.len()
        invariant
            i <= skills.len(),
            env.well_formed(),
            test == (|skill: Skill| is_active(skill.metadata, *availability, env@)),
            out@.map_values(|skill: &Skill| *skill) == skills@.take(i as int).filter(test),
        decreases skills.len() - i,
    {
        let ghost before = out@.map_values(|skill: &Skill| *skill);
        proof {
            reveal(Seq::filter);
            assert(skills@.take(i as int + 1).drop_last() =~= skills@.take(i as int));
            assert(skills@.take(i as int + 1).last() == skills@[i as int]);
        }
        if active(&skills[i].metadata, availability, env) {
            out.push(&skills[i]);
            proof {
                assert(out@.map_values(|skill: &Skill| *skill) =~= before.push(skills@[i as int]));
            }
        }
        i += 1;
    }
    proof {
        assert(skills@.take(i as int) =~= skills@);
    }
    out
}

/// A text with every occurrence of a pattern replaced, from left to right.
pub open spec fn replaced(s: Seq<char>, pattern: Seq<char>, with: Seq<char>) -> Seq<char>
    decreases s.len(),
{
    if pattern.len() == 0 || s.len() < pattern.len() {
        s
    } else if pattern.is_prefix_of(s) {
        with + replaced(s.skip(pattern.len() as int), pattern, with)
    } else {
        seq![s[0]] + replaced(s.skip(1), pattern, with)
    }
}

fn stands_at(chars: &Vec<char>, at: usize, pattern: &Vec<char>) -> (r: bool)
    requires
        at + pattern.len() <= chars.len(),
    ensures
        r == pattern@.is_prefix_of(chars@.skip(at as int)),
{
    let ghost rest = chars@.skip(at as int);
    let mut i: usize = 0;
    while i < pattern.len()
        invariant
            i <= pattern.len(),
            at + pattern.len() <= chars.len(),
            rest == chars@.skip(at as int),
            forall|k: int| 0 <= k < i ==> rest[k] == pattern@[k],
        decreases pattern.len() - i,
    {
        if chars[at + i] != pattern[i] {
            assert(rest.subrange(0, pattern@.len() as int)[i as int] != pattern@[i as int]);
            return false;
        }
        assert(rest[i as int] == pattern@[i as int]);
        i += 1;
    }
    assert(pattern@ =~= rest.subrange(0, pattern@.len() as int));
    true
}

/// Replaces every occurrence of a pattern, which is not empty.
pub fn replace(text: &str, pattern: &str, with: &str) -> (r: String)
    requires
        pattern@.len() > 0,
    ensures
        r@ == replaced(text@, pattern@, with@),
{
    let chars = to_chars(text);
    let wanted = to_chars(pattern);
    let mut out = String::new();
    let mut i: usize = 0;
    proof {
        assert(text@.skip(0) =~= text@);
        assert(Seq::<char>::empty() + replaced(text@, pattern@, with@) =~= replaced(
            text@,
            pattern@,
            with@,
        ));
    }
    while chars.len() - i >= wanted.len()
        invariant
            i <= chars.len(),
            chars@ == text@,
            wanted@ == pattern@,
            pattern@.len() > 0,
            replaced(text@, pattern@, with@) == out@ + replaced(
                text@.skip(i as int),
                pattern@,
                with@,
            ),
        decreases chars.len() - i,
    {
        let ghost before = out@;
        let ghost rest = text@.skip(i as int);
        if stands_at(&chars, i, &wanted) {
            out.append(with);
            i += wanted.len();
            proof {
                assert(rest.skip(pattern@.len() as int) =~= text@.skip(i as int));
                assert(before + (with@ + replaced(text@.skip(i as int), pattern@, with@)) =~= out@
                    + replaced(text@.skip(i as int), pattern@, with@));
            }
        } else {
            out.push(chars[i]);
            proof {
                assert(rest.skip(1) =~= text@.skip(i as int + 1));
                assert(rest[0] == chars@[i as int]);
                assert(before + (seq![rest[0]] + replaced(
                    text@.skip(i as int + 1),
                    pattern@,
                    with@,
                )) =~= out@ + replaced(text@.skip(i as int + 1), pattern@, with@));
            }
            i += 1;
        }
    }
    let tail = from_chars(vstd::slice::slice_subrange(chars.as_slice(), i, chars.len()));
    out.append(tail.as_str());
    proof {
        assert(tail@ =~= text@.skip(i as int));
    }
    out
}

pub open spec fn placeholder(name: Seq<char>) -> Seq<char> {
    "{{"@ + name + "}}"@
}

/// A text with the placeholders of these variables replaced by their values, one
/// variable after the other.
pub open spec fn filled_in(content: Seq<char>, env: Seq<(String, String)>) -> Seq<char>
    decreases env.len(),
{
    if env.len() == 0 {
        content
    } else {
        replaced(
            filled_in(content, env.drop_last()),
            placeholder(env.last().0@),
            env.last().1@,
        )
    }
}

/// The skill with the variables filled in, in the order of their names.
pub fn render_skill(skill: &Skill, env: &TextMap<String>) -> (r: RenderedSkill)
    ensures
        r.name@ == skill.metadata.name@,
        r.priority == skill.metadata.priority,
        r.content@ == filled_in(skill.content@, env.entries@),
{
    let mut content = skill.content.clone();
    let mut i: usize = 0;
    proof {
        assert(env.entries@.take(0) =~= Seq::empty());
        reveal_strlit("{{");
    }
    while i < env.entries.len()
        invariant
            i <= env.entries.len(),
            content@ == filled_in(skill.content@, env.entries@.take(i as int)),
            "{{"@.len() == 2,
        decreases env.entries.len() - i,
    {
        proof {
            assert(env.entries@.take(i as int + 1).drop_last() =~= env.entries@.take(i as int));
        }
        let pattern = concat3("{{", env.entries[i].0.as_str(), "}}");
        content = replace(content.as_str(), pattern.as_str(), env.entries[i].1.as_str());
        i += 1;
    }
    proof {
        assert(env.entries@.take(i as int) =~= env.entries@);
    }
    RenderedSkill {
        name: skill.metadata.name.clone(),
        content,
        priority: skill.metadata.priority,
    }
}

/// The texts of skills, each on a new line and without the white space around it.
pub open spec fn skill_lines(skills: Seq<RenderedSkill>) -> Seq<char>
    decreases skills.len(),
{
    if skills.len() == 0 {
        Seq::empty()
    } else {
        skill_lines(skills.drop_last()) + ("\n"@ + text::trimmed(skills.last().content@))
    }
}

/// What is added to the prompt for these skills.
pub open spec fn skills_prompt(skills: Seq<RenderedSkill>) -> Seq<char> {
    if skills.len() == 0 {
        Seq::empty()
    } else {
        "\n\n## Active Skills"@ + skill_lines(skills)
    }
}

/// What is added to the prompt for these skills: a heading and their texts, or nothing
/// where there are none.
pub fn format_skills_prompt(skills: &Vec<RenderedSkill>) -> (r: String)
    ensures
        r@ == skills_prompt(skills@),
{
    if skills.len() == 0 {
        return String::new();
    }
    let ghost heading = "\n\n## Active Skills"@;
    let mut out = "\n\n## Active Skills".to_owned();
    let mut i: usize = 0;
    proof {
        assert(skills@.take(0) =~= Seq::empty());
        assert(heading + Seq::<char>::empty() =~= heading);
    }
    while i < skills.len()
        invariant
            i <= skills.len(),
            out@ == heading + skill_lines(skills@.take(i as int)),
        decreases skills.len() - i,
    {
        let ghost before = out@;
        proof {
            assert(skills@.take(i as int + 1).drop_last() =~= skills@.take(i as int));
        }
        let body = trim(skills[i].content.as_str());
        out.append("\n");
        out.append(body.as_str());
        proof {
            assert(out@ =~= heading + (skill_lines(skills@.take(i as int)) + ("\n"@ + body@)));
        }
        i += 1;
    }
    proof {
        assert(skills@.take(i as int) =~= skills@);
    }
    out
}

/// A rendered skill is the skill with the variables filled in.
pub open spec fn renders(
    skill: Skill,
    env: Seq<(String, String)>,
    rendered: RenderedSkill,
) -> bool {
    &&& rendered.name@ == skill.metadata.name@
    &&& rendered.priority == skill.metadata.priority
    &&& rendered.content@ == filled_in(skill.content@, env)
}

/// What is added to the prompt for the skills that count and are active, with their
/// variables filled in.
pub fn load_and_render_skills(
    system: Vec<Skill>,
    user: Vec<Skill>,
    workspace: Vec<Skill>,
    availability: &ToolAvailability,
    env: &TextMap<String>,
) -> (r: String)
    requires
        env.well_formed(),
    ensures
        exists|skills: Seq<Skill>, rendered: Seq<RenderedSkill>|
            {
                &&& are_ordered(skills)
                &&& forall|skill: Skill| #[trigger]
                    skills.contains(skill) <==> last_named(
                        system@ + user@ + workspace@,
                        skill.metadata.name@,
                    ) == Some(skill)
                &&& rendered.len() == #[trigger] active_skills(skills, *availability, env@).len()
                &&& forall|i: int|
                    0 <= i < rendered.len() ==> renders(
                        active_skills(skills, *availability, env@)[i],
                        env.entries@,
                        #[trigger] rendered[i],
                    )
                &&& r@ == #[trigger] skills_prompt(rendered)
            },
{
    let skills = discover_skills(system, user, workspace);
    let active = evaluate_activation(&skills, availability, env);
    let ghost chosen = active_skills(skills@, *availability, env@);
    let mut rendered: Vec<RenderedSkill> = Vec::new();
    let mut i: usize = 0;
    proof {
        assert(active@.len() == active@.map_values(|skill: &Skill| *skill).len());
    }
    while i < active.len()
        invariant
            i <= active.len(),
            chosen == active@.map_values(|skill: &Skill| *skill),
            rendered.len() == i,
            forall|k: int|
                0 <= k < i ==> renders(chosen[k], env.entries@, #[trigger] rendered@[k]),
        decreases active.len() - i,
    {
        assert(chosen[i as int] == *active@[i as int]);
        rendered.push(render_skill(active[i], env));
        i += 1;
    }
    let r = format_skills_prompt(&rendered);
    proof {
        assert(active_skills(skills@, *availability, env@).len() == rendered@.len());
        assert(r@ == skills_prompt(rendered@));
    }
    r
}

proof fn lemma_replaced_before(whole: Seq<char>, pattern: Seq<char>, with: Seq<char>, before: int)
    requires
        0 <= before <= whole.len(),
        pattern.len() > 0,
        forall|k: int| 0 <= k < before ==> !#[trigger] text::stands_at(whole, pattern, k),
    ensures
        replaced(whole, pattern, with) == whole.take(before) + replaced(
            whole.skip(before),
            pattern,
            with,
        ),
    decreases before,
{
    if before == 0 {
        assert(whole.skip(0) =~= whole);
        assert(whole.take(0) + replaced(whole, pattern, with) =~= replaced(whole, pattern, with));
    } else {
        lemma_replaced_before(whole, pattern, with, before - 1);
        let rest = whole.skip(before - 1);
        assert(!text::stands_at(whole, pattern, before - 1));
        if pattern.is_prefix_of(rest) {
            assert(whole.subrange(before - 1, before - 1 + pattern.len()) =~= pattern);
        }
        assert(rest.skip(1) =~= whole.skip(before));
        if rest.len() < pattern.len() {
            assert(replaced(rest.skip(1), pattern, with) == rest.skip(1));
            assert(rest =~= seq![rest[0]] + rest.skip(1));
        }
        assert(whole.take(before) =~= whole.take(before - 1) + seq![rest[0]]);
        assert(whole.take(before - 1) + (seq![rest[0]] + replaced(whole.skip(before), pattern, with))
            =~= whole.take(before) + replaced(whole.skip(before), pattern, with));
    }
}

/// The first place where the pattern stands is replaced, what comes before it stays, and
/// what comes behind it is treated as a text of its own; a text in which the pattern stands
/// nowhere stays as it is.
pub proof fn law_pattern_is_replaced_where_it_stands(
    text: &str,
    pattern: &str,
    with: &str,
    r: String,
    rest: &str,
    r_rest: String,
    before: Seq<char>,
)
    requires
        pattern@.len() > 0,
        call_ensures(replace, (text, pattern, with), r),
        call_ensures(replace, (rest, pattern, with), r_rest),
    ensures
        text@ == before + pattern@ + rest@ && (forall|k: int|
            0 <= k < before.len() ==> !#[trigger] text::stands_at(text@, pattern@, k)) ==> r@
            == before + with@ + r_rest@,
        (forall|k: int| 0 <= k < text@.len() ==> !#[trigger] text::stands_at(text@, pattern@, k))
            ==> r@ == text@,
{
    let whole = text@;
    let p = pattern@;
    if text@ == before + p + rest@ && (forall|k: int|
        0 <= k < before.len() ==> !#[trigger] text::stands_at(text@, p, k)) {
        let at = before.len() as int;
        lemma_replaced_before(whole, p, with@, at);
        assert(whole.take(at) =~= before);
        assert(whole.skip(at) =~= p + rest@);
        assert(p.is_prefix_of(whole.skip(at)));
        assert(whole.skip(at).skip(p.len() as int) =~= rest@);
        assert(before + (with@ + r_rest@) =~= before + with@ + r_rest@);
    }
    if forall|k: int| 0 <= k < text@.len() ==> !#[trigger] text::stands_at(text@, p, k) {
        lemma_replaced_before(whole, p, with@, whole.len() as int);
        assert(whole.take(whole.len() as int) =~= whole);
        assert(whole.skip(whole.len() as int) =~= Seq::empty());
        assert(whole + Seq::<char>::empty() =~= whole);
    }
}

/// A skill is rendered one variable after the other: the last is filled in where the skill
/// has been rendered with those before it, by its value for its name in double braces.
pub proof fn law_variables_are_filled_in(
    skill: Skill,
    env: TextMap<String>,
    shorter: TextMap<String>,
    r: RenderedSkill,
    earlier: RenderedSkill,
    text: &str,
    pattern: &str,
    value: &str,
    out: String,
)
    requires
        call_ensures(render_skill, (&skill, &env), r),
        call_ensures(render_skill, (&skill, &shorter), earlier),
        env.entries@.len() > 0,
        shorter.entries@ == env.entries@.drop_last(),
        text@ == earlier.content@,
        pattern@ == "{{"@ + env.entries@.last().0@ + "}}"@,
        value@ == env.entries@.last().1@,
        call_ensures(replace, (text, pattern, value), out),
    ensures
        r.content@ == out@,
        r.name@ == skill.metadata.name@,
        r.priority == skill.metadata.priority,
{
}

/// Without variables a skill is rendered as it stands.
pub proof fn law_plain_skill_stays(skill: Skill, env: TextMap<String>, r: RenderedSkill)
    requires
        call_ensures(render_skill, (&skill, &env), r),
        env.entries@.len() == 0,
    ensures
        r.content@ == skill.content@,
{
}

/// The prompt says what each skill says, without the white space around it, in their order
/// and below a heading; without skills it says nothing.
pub proof fn law_prompt_says_what_skills_say(
    skills: Vec<RenderedSkill>,
    shorter: Vec<RenderedSkill>,
    r: String,
    earlier: String,
)
    requires
        call_ensures(format_skills_prompt, (&skills,), r),
        call_ensures(format_skills_prompt, (&shorter,), earlier),
        skills@.len() > 0,
        shorter@ == skills@.drop_last(),
    ensures
        shorter@.len() > 0 ==> r@ == earlier@ + ("\n"@ + text::trimmed(skills@.last().content@)),
        shorter@.len() == 0 ==> earlier@.len() == 0 && r@ == "\n\n## Active Skills"@ + ("\n"@
            + text::trimmed(skills@.last().content@)),
{
    let heading = "\n\n## Active Skills"@;
    let line = "\n"@ + text::trimmed(skills@.last().content@);
    assert(skill_lines(skills@) == skill_lines(shorter@) + line);
    assert(heading + (skill_lines(shorter@) + line) =~= heading + skill_lines(shorter@) + line);
    if shorter@.len() == 0 {
        assert(skill_lines(shorter@) + line =~= line);
    }
}

/// A skill that is always active is chosen, one that is called by hand is not, and one that
/// activates itself is, where each of its tools is ready and each of its variables is set.
pub proof fn law_skills_are_active_when_they_say(
    skills: Vec<Skill>,
    availability: ToolAvailability,
    env: TextMap<String>,
    r: Vec<&Skill>,
    i: int,
)
    requires
        env.well_formed(),
        call_ensures(evaluate_activation, (&skills, &availability, &env), r),
        0 <= i < skills@.len(),
    ensures
        skills@[i].metadata.activation == SkillActivation::Always ==> r@.map_values(
            |skill: &Skill| *skill,
        ).contains(skills@[i]),
        skills@[i].metadata.activation == SkillActivation::Manual ==> !r@.map_values(
            |skill: &Skill| *skill,
        ).contains(skills@[i]),
        skills@[i].metadata.activation == SkillActivation::Auto
            && skills@[i].metadata.requires@.len() == 0 && skills@[i].metadata.env_vars@.len() == 0
            ==> r@.map_values(|skill: &Skill| *skill).contains(skills@[i]),
        forall|k: int|
            0 <= k < skills@[i].metadata.requires@.len() && (#[trigger] skills@[i].metadata.requires@[k])@
                == "shell_exec"@ && !availability.shell && skills@[i].metadata.activation
                == SkillActivation::Auto ==> !r@.map_values(|skill: &Skill| *skill).contains(
                skills@[i],
            ),
        forall|k: int|
            0 <= k < skills@[i].metadata.requires@.len() && (#[trigger] skills@[i].metadata.requires@[k])@
                == "browser"@ && !availability.browser && skills@[i].metadata.activation
                == SkillActivation::Auto ==> !r@.map_values(|skill: &Skill| *skill).contains(
                skills@[i],
            ),
        forall|k: int|
            0 <= k < skills@[i].metadata.env_vars@.len() && !env@.dom().contains(
                (#[trigger] skills@[i].metadata.env_vars@[k])@,
            ) && skills@[i].metadata.activation == SkillActivation::Auto ==> !r@.map_values(
                |skill: &Skill| *skill,
            ).contains(skills@[i]),
{
    reveal_strlit("shell_exec");
    reveal_strlit("browser");
    assert("shell_exec"@.len() != "browser"@.len());
    let skill = skills@[i];
    let pred = |skill: Skill| is_active(skill.metadata, availability, env@);
    broadcast use vstd::seq_lib::group_filter_ensures;
    assert(r@.map_values(|skill: &Skill| *skill) == skills@.filter(pred));
    assert forall|k: int|
        0 <= k < skill.metadata.requires@.len() && !tool_is_ready(
            (#[trigger] skill.metadata.requires@[k])@,
            availability,
        ) && skill.metadata.activation == SkillActivation::Auto implies !pred(skill) by {}
    assert forall|k: int|
        0 <= k < skill.metadata.env_vars@.len() && !env@.dom().contains(
            (#[trigger] skill.metadata.env_vars@[k])@,
        ) && skill.metadata.activation == SkillActivation::Auto implies !pred(skill) by {}
}

/// The tools that are ready are those that are there; no other is known.
pub proof fn law_ready_tools_are_there(tool: &str, availability: ToolAvailability, r: bool)
    requires
        call_ensures(is_tool_ready, (tool, &availability), r),
    ensures
        tool@ == "shell_exec"@ ==> r == availability.shell,
        tool@ == "browser"@ ==> r == availability.browser,
        tool@ != "shell_exec"@ && tool@ != "browser"@ ==> !r,
{
    reveal_strlit("shell_exec");
    reveal_strlit("browser");
    assert("shell_exec"@.len() != "browser"@.len());
}

proof fn lemma_later_one_counts(skills: Seq<Skill>, i: int)
    requires
        0 <= i < skills.len(),
        forall|k: int|
            i < k < skills.len() ==> (#[trigger] skills[k]).metadata.name@
                != skills[i].metadata.name@,
    ensures
        last_named(skills, skills[i].metadata.name@) == Some(skills[i]),
    decreases skills.len(),
{
    if i < skills.len() - 1 {
        assert(skills.last() == skills[skills.len() - 1]);
        lemma_later_one_counts(skills.drop_last(), i);
    }
}

/// A skill of the workspace counts, unless a later one there has its name; one of the user
/// counts where the workspace has none of its name, and one of the system where neither has.
pub proof fn law_nearer_skills_count(
    system: Vec<Skill>,
    user: Vec<Skill>,
    workspace: Vec<Skill>,
    r: Vec<Skill>,
    i: int,
)
    requires
        call_ensures(discover_skills, (system, user, workspace), r),
    ensures
        0 <= i < workspace@.len() && (forall|k: int|
            i < k < workspace@.len() ==> (#[trigger] workspace@[k]).metadata.name@
                != workspace@[i].metadata.name@) ==> r@.contains(workspace@[i]),
        0 <= i < user@.len() && (forall|k: int|
            i < k < user@.len() ==> (#[trigger] user@[k]).metadata.name@ != user@[i].metadata.name@)
            && (forall|k: int|
            0 <= k < workspace@.len() ==> (#[trigger] workspace@[k]).metadata.name@
                != user@[i].metadata.name@) ==> r@.contains(user@[i]),
        0 <= i < system@.len() && (forall|k: int|
            i < k < system@.len() ==> (#[trigger] system@[k]).metadata.name@
                != system@[i].metadata.name@) && (forall|k: int|
            0 <= k < user@.len() ==> (#[trigger] user@[k]).metadata.name@
                != system@[i].metadata.name@) && (forall|k: int|
            0 <= k < workspace@.len() ==> (#[trigger] workspace@[k]).metadata.name@
                != system@[i].metadata.name@) ==> r@.contains(system@[i]),
        0 < i < r@.len() ==> r@[i - 1].metadata.priority <= r@[i].metadata.priority
            && r@[i - 1].metadata.name@ != r@[i].metadata.name@,
{
    let all = system@ + user@ + workspace@;
    let s = system@.len() as int;
    let u = user@.len() as int;
    if 0 <= i < workspace@.len() && (forall|k: int|
        i < k < workspace@.len() ==> (#[trigger] workspace@[k]).metadata.name@
            != workspace@[i].metadata.name@) {
        assert(all[s + u + i] == workspace@[i]);
        assert forall|k: int| s + u + i < k < all.len() implies (#[trigger] all[k]).metadata.name@
            != workspace@[i].metadata.name@ by {
            assert(all[k] == workspace@[k - s - u]);
        }
        lemma_later_one_counts(all, s + u + i);
    }
    if 0 <= i < user@.len() && (forall|k: int|
        i < k < user@.len() ==> (#[trigger] user@[k]).metadata.name@ != user@[i].metadata.name@) && (
    forall|k: int|
        0 <= k < workspace@.len() ==> (#[trigger] workspace@[k]).metadata.name@
            != user@[i].metadata.name@) {
        assert(all[s + i] == user@[i]);
        assert forall|k: int| s + i < k < all.len() implies (#[trigger] all[k]).metadata.name@
            != user@[i].metadata.name@ by {
            if k < s + u {
                assert(all[k] == user@[k - s]);
            } else {
                assert(all[k] == workspace@[k - s - u]);
            }
        }
        lemma_later_one_counts(all, s + i);
    }
    if 0 <= i < system@.len() && (forall|k: int|
        i < k < system@.len() ==> (#[trigger] system@[k]).metadata.name@
            != system@[i].metadata.name@) && (forall|k: int|
        0 <= k < user@.len() ==> (#[trigger] user@[k]).metadata.name@ != system@[i].metadata.name@)
        && (forall|k: int|
        0 <= k < workspace@.len() ==> (#[trigger] workspace@[k]).metadata.name@
            != system@[i].metadata.name@) {
        assert(all[i] == system@[i]);
        assert forall|k: int| i < k < all.len() implies (#[trigger] all[k]).metadata.name@
            != system@[i].metadata.name@ by {
            if k < s {
                assert(all[k] == system@[k]);
            } else if k < s + u {
                assert(all[k] == user@[k - s]);
            } else {
                assert(all[k] == workspace@[k - s - u]);
            }
        }
        lemma_later_one_counts(all, i);
    }
    if 0 < i < r@.len() {
        assert(skill_before(r@[i - 1], r@[i]));
        assert(r@.contains(r@[i - 1]));
        assert(r@.contains(r@[i]));
        text::law_texts_are_ordered(r@[i].metadata.name@, r@[i].metadata.name@);
    }
}

/// A file with front matter is a skill unless it is longer than twelve thousand characters
/// and three, and a file without is none.
pub proof fn law_short_files_are_skills(
    path: &str,
    parsed: ParsedSkill,
    r: Result<Skill, SkillLoadError>,
)
    requires
        call_ensures(parse_skill_file, (path, parsed), r),
    ensures
        r is Ok <==> parsed.metadata is Some && parsed.content@.len() <= 12003,
        r matches Ok(skill) ==> parsed.metadata == Some(skill.metadata) && skill.content@
            == parsed.content@ && skill.source_path@ == path@,
{
}

/// The text of an error of a skill names the file and says what the error holds.
pub proof fn law_unread_skills_say_why(failure: SkillLoadError, r: String)
    requires
        call_ensures(SkillLoadError::to_text, (&failure,), r),
    ensures
        match failure {
            SkillLoadError::Io { path, error } => {
                &&& text::stands_in(r@, path@)
                &&& text::stands_in(r@, error@)
            },
            SkillLoadError::Parse { path, message } => {
                &&& text::stands_in(r@, path@)
                &&& text::stands_in(r@, message@)
            },
            SkillLoadError::TokenCap { path, estimated, max } => {
                &&& text::stands_in(r@, path@)
                &&& text::stands_in(r@, text::decimal(estimated as nat))
                &&& text::stands_in(r@, text::decimal(max as nat))
            },
        },
{
    text::lemma_parts_stand_in();
}

/// A file is a skill where its name ends in `.md` behind something else, in small letters or
/// large; what is no file is none, nor is a file of another ending.
pub proof fn law_markdown_files_are_skills(
    is_file: bool,
    file_name: &str,
    r: bool,
    stem: Seq<char>,
    m: char,
    d: char,
)
    requires
        call_ensures(is_skill_file, (is_file, file_name), r),
        file_name@ == stem + seq!['.', m, d],
        m != '.',
        d != '.',
    ensures
        stem.len() > 0 && is_file && (m == 'm' || m == 'M') && (d == 'd' || d == 'D') ==> r,
        !is_file || stem.len() == 0 ==> !r,
        m != 'm' && m != 'M' || d != 'd' && d != 'D' ==> !r,
{
    let name = file_name@;
    reveal_with_fuel(text::last_index, 4);
    assert(name.drop_last().drop_last() =~= stem + seq!['.']);
    assert(name.last() == d);
    assert(name.drop_last().last() == m);
    assert(name.drop_last().drop_last().last() == '.');
}

} // verus!
