//! Skills: named prompt templates, the registry that holds them, and the
//! detection of skill commands and trigger phrases in user input.
use vstd::prelude::*;
use crate::cli::string_views;
use crate::commands::{head_word, split_command, tail_args};
use crate::text::{chars_of, contains, contains_seq, is_prefix, lower_of, push_str, slice_vec, starts_with, str_eq, string_of, to_lower, trim_chars, trim_start};

verus! {

/// What the front matter of a skill file declares.
#[derive(Debug, Clone)]
pub struct SkillMetadata {
    pub name: String,
    pub description: String,
    pub triggers: Vec<String>,
    pub auto: bool,
    pub parent: Option<String>,
}

/// A skill: its metadata, its Markdown body and where it was read from.
#[derive(Debug, Clone)]
pub struct Skill {
    pub metadata: SkillMetadata,
    pub content: String,
    pub path: String,
}

/// Whether some trigger phrase occurs in `input`, ignoring letter case.
pub open spec fn triggered(triggers: Seq<Seq<char>>, input: Seq<char>) -> bool {
    exists|i: int| 0 <= i < triggers.len() && contains_seq(lower_of(input), lower_of(#[trigger] triggers[i]))
}

impl Skill {
    /// Whether one of the skill's trigger phrases occurs in `input`,
    /// ignoring letter case.
    pub fn matches_trigger(&self, input: &str) -> (r: bool)
        ensures
            r == triggered(string_views(self.metadata.triggers@), input@),
    {
        let lower_input = chars_of(to_lower(input).as_str());
        let ghost tv = string_views(self.metadata.triggers@);
        let mut i: usize = 0;
        while i < self.metadata.triggers.len()
            invariant
                i <= tv.len(),
                tv == string_views(self.metadata.triggers@),
                lower_input@ == lower_of(input@),
                forall|j: int| 0 <= j < i ==> !contains_seq(lower_of(input@), lower_of(#[trigger] tv[j])),
            decreases tv.len() - i,
        {
            let t = chars_of(to_lower(self.metadata.triggers[i].as_str()).as_str());
            assert(tv[i as int] == self.metadata.triggers@[i as int]@);
            if contains(lower_input.as_slice(), t.as_slice()) {
                return true;
            }
            i += 1;
        }
        false
    }
}


/// How a skill file begins: with a front matter block between `---`
/// lines, or without one.
#[derive(Debug, Clone, PartialEq, Eq)]
pub enum FrontMatter {
    /// No front matter: the whole trimmed text is the body.
    Absent { body: String },
    /// The front matter's text and the body, both trimmed.
    Present { yaml: String, body: String },
    /// An opening `---` without a closing one.
    Unclosed,
}

impl Skill {
    /// Splits a skill file into its front matter and its body.
    pub fn split_frontmatter(content: &str) -> (r: FrontMatter)
        ensures
            ({
                let t = crate::text::trim(content@);
                &&& !is_prefix("---"@, t) ==> (r matches FrontMatter::Absent { body } && body@ == t)
                &&& is_prefix("---"@, t) && !crate::text::contains_seq(t.subrange(3, t.len() as int), "---"@) ==> r is Unclosed
                &&& (r matches FrontMatter::Present { yaml, body } ==> is_prefix("---"@, t) && exists|e: int|
                    crate::text::occurs_at(t.subrange(3, t.len() as int), "---"@, e) && (forall|q: int|
                    0 <= q < e ==> !crate::text::occurs_at(t.subrange(3, t.len() as int), "---"@, q)) && yaml@
                    == crate::text::trim(t.subrange(3, t.len() as int).subrange(0, e)) && body@ == crate::text::trim(
                    t.subrange(3, t.len() as int).subrange(e + 3, t.len() - 3),
                ))
                &&& (is_prefix("---"@, t) && crate::text::contains_seq(t.subrange(3, t.len() as int), "---"@)) ==> r is Present
            }),
    {
        let t = trim_chars(chars_of(content).as_slice());
        let dashes = chars_of("---");
        proof {
            reveal_strlit("---");
        }
        if !starts_with(t.as_slice(), dashes.as_slice()) {
            return FrontMatter::Absent { body: string_of(t.as_slice()) };
        }
        let rest = slice_vec(t.as_slice(), 3, t.len());
        match crate::text::find_from(rest.as_slice(), dashes.as_slice(), 0) {
            Some(e) => {
                let yaml = trim_chars(slice_vec(rest.as_slice(), 0, e).as_slice());
                let body = trim_chars(slice_vec(rest.as_slice(), e + 3, rest.len()).as_slice());
                FrontMatter::Present { yaml: string_of(yaml.as_slice()), body: string_of(body.as_slice()) }
            },
            None => {
                proof {
                    if crate::text::contains_seq(rest@, "---"@) {
                        let q = choose|q: int| crate::text::occurs_at(rest@, "---"@, q);
                        assert(!crate::text::occurs_at(rest@, dashes@, q));
                    }
                }
                FrontMatter::Unclosed
            },
        }
    }

    /// A skill without front matter: named `unnamed`, with no triggers.
    pub fn unnamed(body: String, path: String) -> (r: Skill)
        ensures
            r.metadata.name@ == "unnamed"@,
            r.metadata.description@.len() == 0,
            r.metadata.triggers@.len() == 0,
            !r.metadata.auto,
            r.metadata.parent.is_none(),
            r.content == body,
            r.path == path,
    {
        Skill {
            metadata: SkillMetadata {
                name: String::from_str("unnamed"),
                description: String::new(),
                triggers: Vec::new(),
                auto: false,
                parent: None,
            },
            content: body,
            path,
        }
    }
}

/// Where skills are looked for, and whose they are.
#[derive(Debug, Clone, Copy, PartialEq, Eq, Structural)]
pub enum SkillSource {
    User,
    Superpowers,
}

/// The skills known by name: the user's, and those of the bundled set.
pub struct SkillRegistry {
    skills: Vec<Skill>,
    superpowers_skills: Vec<Skill>,
    search_paths: Vec<(String, SkillSource)>,
}

pub open spec fn skill_names(s: Seq<Skill>) -> Seq<Seq<char>> {
    s.map_values(|k: Skill| k.metadata.name@)
}

pub open spec fn unique_names(s: Seq<Skill>) -> bool {
    forall|i: int, j: int| 0 <= i < j < s.len() ==> s[i].metadata.name@ != s[j].metadata.name@
}

/// The prefix that names a skill of the bundled set.
pub open spec fn superpowers_prefix() -> Seq<char> {
    "superpowers:"@
}

/// The skills of `s`, in order, that `input` triggers.
pub open spec fn triggered_skills(s: Seq<Skill>, input: Seq<char>) -> Seq<Skill>
    decreases s.len(),
{
    if s.len() == 0 {
        Seq::empty()
    } else {
        triggered_skills(s.drop_last(), input) + if triggered(string_views(s.last().metadata.triggers@), input) {
            seq![s.last()]
        } else {
            Seq::empty()
        }
    }
}

/// Whether some skill among `s` is named `name`.
pub open spec fn has_named(s: Seq<Skill>, name: Seq<char>) -> bool {
    exists|i: int| 0 <= i < s.len() && (#[trigger] s[i]).metadata.name@ == name
}

/// Position of the skill named `name` among `s`.
fn position_of(s: &Vec<Skill>, name: &[char]) -> (r: Option<usize>)
    ensures
        match r {
            Some(i) => i < s@.len() && s@[i as int].metadata.name@ == name@,
            None => !has_named(s@, name@),
        },
{
    let mut i: usize = 0;
    while i < s.len()
        invariant
            i <= s@.len(),
            forall|j: int| 0 <= j < i ==> (#[trigger] s@[j]).metadata.name@ != name@,
        decreases s@.len() - i,
    {
        let n = chars_of(s[i].metadata.name.as_str());
        if n.len() == name.len() && starts_with(n.as_slice(), name) {
            assert(n@.subrange(0, name@.len() as int) =~= n@);
            return Some(i);
        }
        proof {
            if n@.len() == name@.len() {
                assert(n@.subrange(0, name@.len() as int) =~= n@);
            }
        }
        i += 1;
    }
    None
}

impl SkillRegistry {
    pub closed spec fn user_skills(&self) -> Seq<Skill> {
        self.skills@
    }

    pub closed spec fn bundled_skills(&self) -> Seq<Skill> {
        self.superpowers_skills@
    }

    pub closed spec fn paths(&self) -> Seq<(Seq<char>, SkillSource)> {
        self.search_paths@.map_values(|p: (String, SkillSource)| (p.0@, p.1))
    }

    pub open spec fn wf(&self) -> bool {
        unique_names(self.user_skills()) && unique_names(self.bundled_skills())
    }

    /// An empty registry with no search paths.
    pub fn new() -> (r: SkillRegistry)
        ensures
            r.wf(),
            r.user_skills().len() == 0,
            r.bundled_skills().len() == 0,
            r.paths().len() == 0,
    {
        SkillRegistry { skills: Vec::new(), superpowers_skills: Vec::new(), search_paths: Vec::new() }
    }

    /// The places to look for skills, in order.
    pub fn search_paths(&self) -> (r: &Vec<(String, SkillSource)>)
        ensures
            r@.map_values(|p: (String, SkillSource)| (p.0@, p.1)) == self.paths(),
    {
        &self.search_paths
    }

    pub fn add_search_path(&mut self, path: String)
        ensures
            final(self).paths() == old(self).paths().push((path@, SkillSource::User)),
            final(self).user_skills() == old(self).user_skills(),
            final(self).bundled_skills() == old(self).bundled_skills(),
    {
        let ghost prev = self.search_paths@;
        let ghost pv = path@;
        self.search_paths.push((path, SkillSource::User));
        assert(self.paths() =~= prev.map_values(|p: (String, SkillSource)| (p.0@, p.1)).push((pv, SkillSource::User)));
    }

    pub fn add_superpowers_path(&mut self, path: String)
        ensures
            final(self).paths() == old(self).paths().push((path@, SkillSource::Superpowers)),
            final(self).user_skills() == old(self).user_skills(),
            final(self).bundled_skills() == old(self).bundled_skills(),
    {
        let ghost prev = self.search_paths@;
        let ghost pv = path@;
        self.search_paths.push((path, SkillSource::Superpowers));
        assert(self.paths() =~= prev.map_values(|p: (String, SkillSource)| (p.0@, p.1)).push((pv, SkillSource::Superpowers)));
    }

    /// Puts `skill` in `list`, in place of the one with its name if any.
    fn put(list: &mut Vec<Skill>, skill: Skill, name: &[char])
        requires
            unique_names(old(list)@),
            name@ == skill.metadata.name@,
        ensures
            unique_names(final(list)@),
            final(list)@.contains(skill),
            forall|k: Skill| final(list)@.contains(k) ==> k == skill || (old(list)@.contains(k) && k.metadata.name@ != name@),
            forall|k: Skill| old(list)@.contains(k) && k.metadata.name@ != name@ ==> final(list)@.contains(k),
    {
        let ghost old_list = list@;
        match position_of(list, name) {
            Some(i) => {
                list.set(i, skill);
                assert(list@ =~= old_list.update(i as int, skill));
                assert forall|a: int, b: int| 0 <= a < b < list@.len() implies list@[a].metadata.name@ != list@[b].metadata.name@ by {
                    assert(old_list[a].metadata.name@ != old_list[b].metadata.name@);
                }
                assert(list@[i as int] == skill);
                assert forall|k: Skill| list@.contains(k) implies k == skill || (old_list.contains(k) && k.metadata.name@ != name@) by {
                    let q = choose|q: int| 0 <= q < list@.len() && list@[q] == k;
                    if q != i {
                        assert(old_list[q] == k);
                        assert(old_list[q].metadata.name@ != old_list[i as int].metadata.name@);
                    }
                }
                assert forall|k: Skill| old_list.contains(k) && k.metadata.name@ != name@ implies list@.contains(k) by {
                    let q = choose|q: int| 0 <= q < old_list.len() && old_list[q] == k;
                    assert(q != i);
                    assert(list@[q] == k);
                }
            },
            None => {
                list.push(skill);
                assert(list@ =~= old_list.push(skill));
                assert forall|a: int, b: int| 0 <= a < b < list@.len() implies list@[a].metadata.name@ != list@[b].metadata.name@ by {
                    if b == old_list.len() {
                        assert(old_list[a].metadata.name@ != name@);
                    } else {
                        assert(old_list[a].metadata.name@ != old_list[b].metadata.name@);
                    }
                }
                assert(list@[old_list.len() as int] == skill);
                assert forall|k: Skill| list@.contains(k) implies k == skill || (old_list.contains(k) && k.metadata.name@ != name@) by {
                    let q = choose|q: int| 0 <= q < list@.len() && list@[q] == k;
                    if q < old_list.len() {
                        assert(old_list[q] == k);
                        assert(old_list[q].metadata.name@ != name@);
                    }
                }
                assert forall|k: Skill| old_list.contains(k) && k.metadata.name@ != name@ implies list@.contains(k) by {
                    let q = choose|q: int| 0 <= q < old_list.len() && old_list[q] == k;
                    assert(list@[q] == k);
                }
            },
        }
    }

    /// Registers a skill. A user skill replaces one of the same name. A
    /// bundled skill replaces a bundled one of the same name, and is also
    /// registered as a user skill unless one of that name exists.
    pub fn insert_skill(&mut self, skill: Skill, source: SkillSource)
        requires
            old(self).wf(),
        ensures
            final(self).wf(),
            source == SkillSource::User ==> final(self).user_skills().contains(skill)
                && final(self).bundled_skills() == old(self).bundled_skills(),
            source == SkillSource::Superpowers ==> final(self).bundled_skills().contains(skill),
            source == SkillSource::Superpowers && has_named(old(self).user_skills(), skill.metadata.name@)
                ==> final(self).user_skills() == old(self).user_skills(),
            source == SkillSource::Superpowers ==> has_named(final(self).user_skills(), skill.metadata.name@),
    {
        let name = chars_of(skill.metadata.name.as_str());
        match source {
            SkillSource::User => {
                Self::put(&mut self.skills, skill, name.as_slice());
            },
            SkillSource::Superpowers => {
                let copy = skill.duplicate();
                Self::put(&mut self.superpowers_skills, skill, name.as_slice());
                match position_of(&self.skills, name.as_slice()) {
                    Some(i) => {
                        assert(self.skills@[i as int].metadata.name@ == name@);
                    },
                    None => {
                        let ghost old_list = self.skills@;
                        self.skills.push(copy);
                        assert(self.skills@[old_list.len() as int].metadata.name@ == name@);
                        assert forall|a: int, b: int| 0 <= a < b < self.skills@.len() implies self.skills@[a].metadata.name@ != self.skills@[b].metadata.name@ by {
                            if b == old_list.len() {
                                assert(old_list[a].metadata.name@ != name@);
                            } else {
                                assert(old_list[a].metadata.name@ != old_list[b].metadata.name@);
                            }
                        }
                    },
                }
            },
        }
    }

    /// The skill named `name`: a name with the `superpowers:` prefix names
    /// a bundled skill; a plain name names a user skill, else a bundled one.
    pub fn get(&self, name: &str) -> (r: Option<&Skill>)
        ensures
            is_prefix(superpowers_prefix(), name@) ==> ({
                let rest = name@.subrange(superpowers_prefix().len() as int, name@.len() as int);
                &&& (r matches Some(k) ==> self.bundled_skills().contains(*k) && k.metadata.name@ == rest)
                &&& (r is None ==> !has_named(self.bundled_skills(), rest))
            }),
            !is_prefix(superpowers_prefix(), name@) ==> {
                &&& (r matches Some(k) ==> k.metadata.name@ == name@ && (self.user_skills().contains(*k) || (
                !has_named(self.user_skills(), name@) && self.bundled_skills().contains(*k))))
                &&& (r is None ==> !has_named(self.user_skills(), name@) && !has_named(self.bundled_skills(), name@))
            },
    {
        let n = chars_of(name);
        let prefix = chars_of("superpowers:");
        if starts_with(n.as_slice(), prefix.as_slice()) {
            let rest = slice_vec(n.as_slice(), prefix.len(), n.len());
            return match position_of(&self.superpowers_skills, rest.as_slice()) {
                Some(i) => {
                    assert(self.superpowers_skills@.contains(self.superpowers_skills@[i as int]));
                    Some(&self.superpowers_skills[i])
                },
                None => None,
            };
        }
        match position_of(&self.skills, n.as_slice()) {
            Some(i) => {
                assert(self.skills@.contains(self.skills@[i as int]));
                Some(&self.skills[i])
            },
            None => match position_of(&self.superpowers_skills, n.as_slice()) {
                Some(i) => {
                    assert(self.superpowers_skills@.contains(self.superpowers_skills@[i as int]));
                    Some(&self.superpowers_skills[i])
                },
                None => None,
            },
        }
    }

    /// The user skills.
    pub fn list(&self) -> (r: Vec<&Skill>)
        ensures
            r@.len() == self.user_skills().len(),
            forall|i: int| 0 <= i < r@.len() ==> *r@[i] == self.user_skills()[i],
    {
        let mut r: Vec<&Skill> = Vec::new();
        let mut i: usize = 0;
        while i < self.skills.len()
            invariant
                i <= self.skills@.len(),
                r@.len() == i,
                forall|j: int| 0 <= j < i ==> *r@[j] == self.skills@[j],
            decreases self.skills@.len() - i,
        {
            r.push(&self.skills[i]);
            i += 1;
        }
        r
    }

    /// The names of the user skills, then those of the bundled skills with
    /// the `superpowers:` prefix.
    pub fn names(&self) -> (r: Vec<String>)
        ensures
            string_views(r@) == skill_names(self.user_skills()) + skill_names(self.bundled_skills()).map_values(
                |n: Seq<char>| superpowers_prefix() + n,
            ),
    {
        let mut r: Vec<String> = Vec::new();
        let mut i: usize = 0;
        while i < self.skills.len()
            invariant
                i <= self.skills@.len(),
                string_views(r@) == skill_names(self.skills@).subrange(0, i as int),
            decreases self.skills@.len() - i,
        {
            let c = self.skills[i].metadata.name.clone();
            let ghost prev = r@;
            r.push(c);
            assert(string_views(r@) =~= string_views(prev).push(self.skills@[i as int].metadata.name@));
            assert(string_views(r@) =~= skill_names(self.skills@).subrange(0, i + 1));
            i += 1;
        }
        let ghost base = string_views(r@);
        assert(base =~= skill_names(self.skills@));
        let ghost bn = skill_names(self.superpowers_skills@).map_values(|n: Seq<char>| superpowers_prefix() + n);
        let mut k: usize = 0;
        while k < self.superpowers_skills.len()
            invariant
                k <= self.superpowers_skills@.len(),
                bn == skill_names(self.superpowers_skills@).map_values(|n: Seq<char>| superpowers_prefix() + n),
                string_views(r@) == base + bn.subrange(0, k as int),
            decreases self.superpowers_skills@.len() - k,
        {
            let mut v = chars_of("superpowers:");
            push_str(&mut v, self.superpowers_skills[k].metadata.name.as_str());
            let s = string_of(v.as_slice());
            assert(s@ == bn[k as int]);
            let ghost prev = r@;
            r.push(s);
            assert(string_views(r@) =~= string_views(prev).push(bn[k as int]));
            assert(string_views(r@) =~= base + bn.subrange(0, k + 1));
            k += 1;
        }
        assert(bn.subrange(0, k as int) =~= bn);
        r
    }

    /// The user skills, in order, that have a trigger phrase occurring in
    /// `input`.
    pub fn find_by_trigger(&self, input: &str) -> (r: Vec<&Skill>)
        ensures
            r@.map_values(|k: &Skill| *k) == triggered_skills(self.user_skills(), input@),
    {
        let mut r: Vec<&Skill> = Vec::new();
        let mut i: usize = 0;
        while i < self.skills.len()
            invariant
                i <= self.skills@.len(),
                r@.map_values(|k: &Skill| *k) == triggered_skills(self.skills@.subrange(0, i as int), input@),
            decreases self.skills@.len() - i,
        {
            assert(self.skills@.subrange(0, i + 1).drop_last() =~= self.skills@.subrange(0, i as int));
            let ghost prev = r@;
            if self.skills[i].matches_trigger(input) {
                r.push(&self.skills[i]);
                assert(r@.map_values(|k: &Skill| *k) =~= prev.map_values(|k: &Skill| *k).push(self.skills@[i as int]));
            } else {
                assert(r@.map_values(|k: &Skill| *k) =~= prev.map_values(|k: &Skill| *k) + Seq::<Skill>::empty());
            }
            i += 1;
        }
        assert(self.skills@.subrange(0, i as int) =~= self.skills@);
        r
    }

    pub fn len(&self) -> (r: usize)
        ensures
            r == self.user_skills().len(),
    {
        self.skills.len()
    }

    pub fn is_empty(&self) -> (r: bool)
        ensures
            r == (self.user_skills().len() == 0),
    {
        self.skills.len() == 0
    }
}

impl SkillMetadata {
    /// An identical copy.
    pub fn duplicate(&self) -> (r: SkillMetadata)
        ensures
            r.name == self.name,
            r.description == self.description,
            r.triggers@ == self.triggers@,
            r.auto == self.auto,
            r.parent == self.parent,
    {
        let mut triggers: Vec<String> = Vec::new();
        let mut i: usize = 0;
        while i < self.triggers.len()
            invariant
                i <= self.triggers@.len(),
                triggers@ == self.triggers@.subrange(0, i as int),
            decreases self.triggers@.len() - i,
        {
            triggers.push(self.triggers[i].clone());
            i += 1;
            assert(triggers@ =~= self.triggers@.subrange(0, i as int));
        }
        assert(triggers@ =~= self.triggers@);
        let parent = match &self.parent {
            Some(p) => Some(p.clone()),
            None => None,
        };
        SkillMetadata {
            name: self.name.clone(),
            description: self.description.clone(),
            triggers,
            auto: self.auto,
            parent,
        }
    }
}

impl Skill {
    /// An identical copy.
    pub fn duplicate(&self) -> (r: Skill)
        ensures
            r.metadata.name == self.metadata.name,
            r.metadata.triggers@ == self.metadata.triggers@,
            r.content == self.content,
            r.path == self.path,
    {
        Skill { metadata: self.metadata.duplicate(), content: self.content.clone(), path: self.path.clone() }
    }
}

/// The first white-space separated word of `s`, if any.
pub open spec fn first_token(s: Seq<char>) -> Option<Seq<char>> {
    let t = trim_start(s);
    if t.len() == 0 {
        None
    } else {
        Some(head_word(t))
    }
}

/// A `/` command that is not one of the built-in ones checked first.
pub open spec fn skill_command(input: Seq<char>) -> bool {
    is_prefix("/"@, input) && !is_prefix("/help"@, input) && !is_prefix("/quit"@, input) && !is_prefix(
        "/plan"@,
        input,
    ) && !is_prefix("/execute"@, input) && !is_prefix("/clear"@, input)
}

/// The skill name a `/name` command gives: its first word after the `/`.
pub open spec fn command_word(input: Seq<char>) -> Option<Seq<char>> {
    if input.len() > 0 && input[0] == '/' {
        Some(head_word(trim_start(input.subrange(1, input.len() as int))))
    } else {
        None
    }
}

/// `k` is what `input` calls for: the skill a `/name` command names, or a
/// user skill that one of its trigger phrases calls.
pub open spec fn called_for(registry: SkillRegistry, input: Seq<char>, k: Skill) -> bool {
    (command_word(input) matches Some(w) && (k.metadata.name@ == w || superpowers_prefix() + k.metadata.name@ == w))
        || (registry.user_skills().contains(k) && triggered(string_views(k.metadata.triggers@), input))
}

/// Some skill of `s` is named `name`.
pub open spec fn named_in(s: Seq<&Skill>, name: Seq<char>) -> bool {
    exists|q: int| 0 <= q < s.len() && (#[trigger] s[q]).metadata.name@ == name
}

proof fn lemma_named_in_push(s: Seq<&Skill>, k: &Skill, name: Seq<char>)
    requires
        named_in(s, name),
    ensures
        named_in(s.push(k), name),
{
    let q = choose|q: int| 0 <= q < s.len() && (#[trigger] s[q]).metadata.name@ == name;
    assert(s.push(k)[q] == s[q]);
}

/// Finds the skills that an input calls for.
pub struct TriggerDetector<'a> {
    registry: &'a SkillRegistry,
}

impl<'a> TriggerDetector<'a> {
    pub fn new(registry: &'a SkillRegistry) -> (r: TriggerDetector<'a>)
        ensures
            r.registry() == *registry,
    {
        TriggerDetector { registry }
    }

    pub closed spec fn registry(&self) -> SkillRegistry {
        *self.registry
    }

    /// The skills that `input` calls for: the one that a `/name` command
    /// names, then the user skills that it triggers, each name once; those
    /// that run by themselves come first.
    pub fn detect(&self, input: &str) -> (r: Vec<&'a Skill>)
        ensures
            forall|i: int, j: int| 0 <= i < j < r@.len() ==> r@[i].metadata.auto || !r@[j].metadata.auto,
            forall|i: int| 0 <= i < r@.len() ==> self.registry().user_skills().contains(*r@[i])
                || self.registry().bundled_skills().contains(*r@[i]),
            forall|i: int|
                0 <= i < self.registry().user_skills().len() && triggered(
                    string_views(#[trigger] self.registry().user_skills()[i].metadata.triggers@),
                    input@,
                ) ==> named_in(r@, self.registry().user_skills()[i].metadata.name@),
            (command_word(input@) matches Some(w) && !is_prefix(superpowers_prefix(), w) && (has_named(
                self.registry().user_skills(),
                w,
            ) || has_named(self.registry().bundled_skills(), w))) ==> named_in(r@, command_word(input@)->0),
            forall|i: int| 0 <= i < r@.len() ==> called_for(self.registry(), input@, *#[trigger] r@[i]),
    {
        let mut found: Vec<&'a Skill> = Vec::new();
        let c = chars_of(input);
        let ghost w: Seq<char> = match command_word(input@) {
            Some(x) => x,
            None => Seq::empty(),
        };
        let ghost mut cmd_named = false;
        if c.len() > 0 && c[0] == '/' {
            let rest = slice_vec(c.as_slice(), 1, c.len());
            let lo = skip_ws(rest.as_slice());
            let tail = slice_vec(rest.as_slice(), lo, rest.len());
            let (word, _args) = split_command(tail.as_slice());
            let name = string_of(word.as_slice());
            assert(name@ == w);
            match self.registry.get(name.as_str()) {
                Some(k) => {
                    proof {
                        if is_prefix(superpowers_prefix(), w) {
                            assert(superpowers_prefix() + k.metadata.name@ =~= w);
                        }
                    }
                    found.push(k);
                    proof {
                        if !is_prefix(superpowers_prefix(), w) {
                            cmd_named = true;
                        }
                    }
                },
                None => {},
            }
        }
        assert(!cmd_named ==> !(command_word(input@) matches Some(x) && !is_prefix(superpowers_prefix(), x) && (
        has_named(self.registry().user_skills(), x) || has_named(self.registry().bundled_skills(), x))));
        let all = self.registry.list();
        let mut i: usize = 0;
        while i < all.len()
            invariant
                i <= all@.len(),
                all@.len() == self.registry().user_skills().len(),
                forall|q: int| 0 <= q < all@.len() ==> *all@[q] == self.registry().user_skills()[q],
                forall|q: int| 0 <= q < found@.len() ==> self.registry().user_skills().contains(*found@[q])
                    || self.registry().bundled_skills().contains(*found@[q]),
                forall|q: int|
                    0 <= q < i && triggered(
                        string_views(#[trigger] self.registry().user_skills()[q].metadata.triggers@),
                        input@,
                    ) ==> named_in(found@, self.registry().user_skills()[q].metadata.name@),
                cmd_named ==> found@.len() > 0 && found@[0].metadata.name@ == w,
                forall|q: int| 0 <= q < found@.len() ==> called_for(self.registry(), input@, *#[trigger] found@[q]),
            decreases all@.len() - i,
        {
            let k = all[i];
            assert(*k == self.registry().user_skills()[i as int]);
            let ghost before = found@;
            if k.matches_trigger(input) {
                let mut dup = false;
                let mut j: usize = 0;
                while j < found.len()
                    invariant
                        j <= found@.len(),
                        dup ==> named_in(found@, k.metadata.name@),
                    decreases found@.len() - j,
                {
                    if str_eq(found[j].metadata.name.as_str(), k.metadata.name.as_str()) {
                        dup = true;
                        assert(found@[j as int].metadata.name@ == k.metadata.name@);
                    }
                    j += 1;
                }
                if !dup {
                    assert(self.registry().user_skills().contains(*k)) by {
                        assert(self.registry().user_skills()[i as int] == *k);
                    }
                    found.push(k);
                    assert(found@[found@.len() - 1] == k);
                    assert(named_in(found@, k.metadata.name@));
                    assert forall|q: int|
                        0 <= q < i && triggered(
                            string_views(#[trigger] self.registry().user_skills()[q].metadata.triggers@),
                            input@,
                        ) implies named_in(found@, self.registry().user_skills()[q].metadata.name@) by {
                        lemma_named_in_push(before, k, self.registry().user_skills()[q].metadata.name@);
                    }
                }
            }
            i += 1;
        }
        let mut out: Vec<&'a Skill> = Vec::new();
        let mut pass: usize = 0;
        while pass < 2
            invariant
                pass <= 2,
                forall|q: int| 0 <= q < found@.len() ==> self.registry().user_skills().contains(*found@[q])
                    || self.registry().bundled_skills().contains(*found@[q]),
                forall|q: int| 0 <= q < out@.len() ==> self.registry().user_skills().contains(*out@[q])
                    || self.registry().bundled_skills().contains(*out@[q]),
                pass == 0 ==> out@.len() == 0,
                pass == 1 ==> forall|q: int| 0 <= q < out@.len() ==> out@[q].metadata.auto,
                forall|q: int|
                    0 <= q < found@.len() && (pass == 2 || (pass == 1 && found@[q].metadata.auto)) ==> named_in(
                        out@,
                        (#[trigger] found@[q]).metadata.name@,
                    ),
                forall|q: int|
                    0 <= q < self.registry().user_skills().len() && triggered(
                        string_views(#[trigger] self.registry().user_skills()[q].metadata.triggers@),
                        input@,
                    ) ==> named_in(found@, self.registry().user_skills()[q].metadata.name@),
                forall|a: int, b: int| 0 <= a < b < out@.len() ==> out@[a].metadata.auto || !out@[b].metadata.auto,
                cmd_named ==> found@.len() > 0 && found@[0].metadata.name@ == w,
                forall|q: int| 0 <= q < found@.len() ==> called_for(self.registry(), input@, *#[trigger] found@[q]),
                forall|q: int| 0 <= q < out@.len() ==> called_for(self.registry(), input@, *#[trigger] out@[q]),
            decreases 2 - pass,
        {
            let want = pass == 0;
            let mut j: usize = 0;
            while j < found.len()
                invariant
                    j <= found@.len(),
                    want == (pass == 0),
                    forall|q: int| 0 <= q < found@.len() ==> self.registry().user_skills().contains(*found@[q])
                        || self.registry().bundled_skills().contains(*found@[q]),
                    forall|q: int| 0 <= q < out@.len() ==> self.registry().user_skills().contains(*out@[q])
                        || self.registry().bundled_skills().contains(*out@[q]),
                    want ==> forall|q: int| 0 <= q < out@.len() ==> out@[q].metadata.auto,
                    forall|a: int, b: int| 0 <= a < b < out@.len() ==> out@[a].metadata.auto || !out@[b].metadata.auto,
                    pass < 2,
                forall|q: int| 0 <= q < found@.len() ==> called_for(self.registry(), input@, *#[trigger] found@[q]),
                    forall|q: int| 0 <= q < out@.len() ==> called_for(self.registry(), input@, *#[trigger] out@[q]),
                    forall|q: int|
                        0 <= q < found@.len() && (pass == 1 && found@[q].metadata.auto) ==> named_in(
                            out@,
                            (#[trigger] found@[q]).metadata.name@,
                        ),
                    forall|q: int|
                        0 <= q < j && found@[q].metadata.auto == want ==> named_in(
                            out@,
                            (#[trigger] found@[q]).metadata.name@,
                        ),
                decreases found@.len() - j,
            {
                if found[j].metadata.auto == want {
                    let ghost before = out@;
                    out.push(found[j]);
                    assert(out@[out@.len() - 1] == found@[j as int]);
                    assert forall|q: int|
                        0 <= q < found@.len() && ((pass == 1 && found@[q].metadata.auto) || (q < j
                            && found@[q].metadata.auto == want)) implies named_in(out@, (#[trigger] found@[q]).metadata.name@) by {
                        lemma_named_in_push(before, found@[j as int], found@[q].metadata.name@);
                    }
                }
                j += 1;
            }
            assert forall|q: int|
                0 <= q < found@.len() && (pass + 1 == 2 || (pass + 1 == 1 && found@[q].metadata.auto)) implies named_in(
                    out@,
                    (#[trigger] found@[q]).metadata.name@,
                ) by {
                if pass == 1 {
                    if found@[q].metadata.auto {
                    } else {
                        assert(found@[q].metadata.auto == want);
                    }
                } else {
                    assert(found@[q].metadata.auto == want);
                }
            }
            pass += 1;
        }
        assert forall|i: int|
            0 <= i < self.registry().user_skills().len() && triggered(
                string_views(#[trigger] self.registry().user_skills()[i].metadata.triggers@),
                input@,
            ) implies named_in(out@, self.registry().user_skills()[i].metadata.name@) by {
            let name = self.registry().user_skills()[i].metadata.name@;
            let q = choose|q: int| 0 <= q < found@.len() && (#[trigger] found@[q]).metadata.name@ == name;
            assert(named_in(out@, found@[q].metadata.name@));
        }
        out
    }

    /// Whether `input` is a `/` command other than help, quit, plan,
    /// execute and clear.
    pub fn is_skill_command(input: &str) -> (r: bool)
        ensures
            r == skill_command(input@),
    {
        let c = chars_of(input);
        let s = c.as_slice();
        starts_with(s, chars_of("/").as_slice()) && !starts_with(s, chars_of("/help").as_slice())
            && !starts_with(s, chars_of("/quit").as_slice()) && !starts_with(s, chars_of("/plan").as_slice())
            && !starts_with(s, chars_of("/execute").as_slice()) && !starts_with(s, chars_of("/clear").as_slice())
    }

    /// The skill name of a skill command: its first word after the `/`.
    pub fn extract_skill_name(input: &str) -> (r: Option<String>)
        ensures
            match r {
                Some(n) => skill_command(input@) && first_token(input@.subrange(1, input@.len() as int)) == Some(n@),
                None => !skill_command(input@) || first_token(input@.subrange(1, input@.len() as int)).is_none(),
            },
    {
        if !Self::is_skill_command(input) {
            return None;
        }
        let c = chars_of(input);
        proof {
            reveal_strlit("/");
        }
        let rest = slice_vec(c.as_slice(), 1, c.len());
        let lo = skip_ws(rest.as_slice());
        if lo == rest.len() {
            return None;
        }
        let tail = slice_vec(rest.as_slice(), lo, rest.len());
        let (word, _args) = split_command(tail.as_slice());
        Some(string_of(word.as_slice()))
    }

    /// The arguments of a skill command: what follows the first white space
    /// after the `/`, trimmed.
    pub fn extract_args(input: &str) -> (r: Option<String>)
        ensures
            match r {
                Some(a) => skill_command(input@) && tail_args(input@.subrange(1, input@.len() as int)) == Some(a@),
                None => !skill_command(input@) || tail_args(input@.subrange(1, input@.len() as int)).is_none(),
            },
    {
        if !Self::is_skill_command(input) {
            return None;
        }
        let c = chars_of(input);
        proof {
            reveal_strlit("/");
        }
        let rest = slice_vec(c.as_slice(), 1, c.len());
        let (_word, args) = split_command(rest.as_slice());
        match args {
            Some(a) => Some(string_of(a.as_slice())),
            None => None,
        }
    }
}

proof fn lemma_trim_start_skip(s: Seq<char>, i: int)
    requires
        0 <= i <= s.len(),
        forall|j: int| 0 <= j < i ==> crate::text::is_ws(s[j]),
        i == s.len() || !crate::text::is_ws(s[i]),
    ensures
        trim_start(s) == s.subrange(i, s.len() as int),
    decreases i,
{
    if i > 0 {
        assert(s.drop_first() =~= s.subrange(1, s.len() as int));
        lemma_trim_start_skip(s.drop_first(), i - 1);
        assert(s.drop_first().subrange(i - 1, s.len() - 1) =~= s.subrange(i, s.len() as int));
    } else {
        assert(s.subrange(0, s.len() as int) =~= s);
    }
}

/// Index of the first character of `s` that is not white space.
fn skip_ws(s: &[char]) -> (r: usize)
    ensures
        r <= s@.len(),
        trim_start(s@) == s@.subrange(r as int, s@.len() as int),
{
    let mut i: usize = 0;
    while i < s.len() && crate::text::is_whitespace(s[i])
        invariant
            i <= s@.len(),
            forall|j: int| 0 <= j < i ==> crate::text::is_ws(s@[j]),
        decreases s@.len() - i,
    {
        i += 1;
    }
    proof {
        lemma_trim_start_skip(s@, i as int);
    }
    i
}

/// The arguments and working directory a skill runs with.
pub struct SkillContext {
    pub args: Option<String>,
    pub working_dir: String,
}

impl SkillContext {
    pub fn new(args: Option<String>, working_dir: String) -> (r: SkillContext)
        ensures
            r.args == args,
            r.working_dir == working_dir,
    {
        SkillContext { args, working_dir }
    }
}

/// The prompt that a skill produced.
pub struct SkillResult {
    pub prompt: String,
    pub skill_name: String,
    pub has_children: bool,
}

/// Turns skills into prompts.
pub struct SkillExecutor {
    registry: std::sync::Arc<SkillRegistry>,
}

/// A skill wrapped for the system prompt.
pub open spec fn skill_prompt(name: Seq<char>, content: Seq<char>) -> Seq<char> {
    "<skill name=\""@ + name + "\">\n"@ + content + "\n</skill>"@
}

impl SkillExecutor {
    pub closed spec fn reg(&self) -> SkillRegistry {
        *self.registry
    }

    pub fn new(registry: std::sync::Arc<SkillRegistry>) -> (r: SkillExecutor)
        ensures
            r.reg() == *registry,
    {
        SkillExecutor { registry }
    }

    /// The registry that the executor reads.
    pub fn registry(&self) -> (r: &SkillRegistry)
        ensures
            *r == self.reg(),
    {
        &*self.registry
    }

    /// The skill wrapped in a `skill` element named after it.
    pub fn to_system_prompt(&self, skill: &Skill) -> (r: String)
        ensures
            r@ == skill_prompt(skill.metadata.name@, skill.content@),
    {
        let mut v: Vec<char> = Vec::new();
        push_str(&mut v, "<skill name=\"");
        push_str(&mut v, skill.metadata.name.as_str());
        push_str(&mut v, "\">\n");
        push_str(&mut v, skill.content.as_str());
        push_str(&mut v, "\n</skill>");
        assert(v@ =~= skill_prompt(skill.metadata.name@, skill.content@));
        string_of(v.as_slice())
    }
}

} // verus!
