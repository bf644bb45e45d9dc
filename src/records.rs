use vstd::prelude::*;

verus! {

/// A developer's profile. Its identifier is the key it is stored under.
#[derive(Clone, Debug, PartialEq, Eq)]
pub struct DeveloperProfile {
    pub name: String,
    pub location: String,
    /// Topics the developer is interested in.
    pub ideas: Vec<String>,
    /// Groups the developer has joined, in order of joining.
    pub groups: Vec<u64>,
}

/// A social group gathered around one topic.
#[derive(Clone, Debug, PartialEq, Eq)]
pub struct SocialGroup {
    pub id: u64,
    pub name: String,
    pub idea: String,
    /// Developers who joined the group, in order of joining.
    pub members: Vec<u64>,
}

/// A message sent by a developer to a group.
#[derive(Clone, Debug, PartialEq, Eq)]
pub struct Message {
    pub sender_id: u64,
    pub group_id: u64,
    pub content: String,
}

pub struct DeveloperProfileView {
    pub name: Seq<char>,
    pub location: Seq<char>,
    pub ideas: Seq<Seq<char>>,
    pub groups: Seq<u64>,
}

pub struct SocialGroupView {
    pub id: u64,
    pub name: Seq<char>,
    pub idea: Seq<char>,
    pub members: Seq<u64>,
}

pub struct MessageView {
    pub sender_id: u64,
    pub group_id: u64,
    pub content: Seq<char>,
}

/// The texts of a sequence of strings.
pub open spec fn texts(s: Seq<String>) -> Seq<Seq<char>> {
    s.map_values(|x: String| x@)
}

impl View for DeveloperProfile {
    type V = DeveloperProfileView;

    open spec fn view(&self) -> DeveloperProfileView {
        DeveloperProfileView {
            name: self.name@,
            location: self.location@,
            ideas: texts(self.ideas@),
            groups: self.groups@,
        }
    }
}

impl View for SocialGroup {
    type V = SocialGroupView;

    open spec fn view(&self) -> SocialGroupView {
        SocialGroupView { id: self.id, name: self.name@, idea: self.idea@, members: self.members@ }
    }
}

impl View for Message {
    type V = MessageView;

    open spec fn view(&self) -> MessageView {
        MessageView { sender_id: self.sender_id, group_id: self.group_id, content: self.content@ }
    }
}

/// A copy of a list of strings.
pub fn copy_strings(v: &Vec<String>) -> (r: Vec<String>)
    ensures
        r@ == v@,
{
    let mut r: Vec<String> = Vec::new();
    let mut i: usize = 0;
    while i < v.len()
        invariant
            i <= v@.len(),
            r@ == v@.subrange(0, i as int),
        decreases v@.len() - i,
    {
        r.push(v[i].clone());
        i = i + 1;
        assert(r@ =~= v@.subrange(0, i as int));
    }
    assert(v@.subrange(0, v@.len() as int) =~= v@);
    r
}

/// A copy of a list of identifiers.
pub fn copy_ids(v: &Vec<u64>) -> (r: Vec<u64>)
    ensures
        r@ == v@,
{
    let mut r: Vec<u64> = Vec::new();
    let mut i: usize = 0;
    while i < v.len()
        invariant
            i <= v@.len(),
            r@ == v@.subrange(0, i as int),
        decreases v@.len() - i,
    {
        r.push(v[i]);
        i = i + 1;
        assert(r@ =~= v@.subrange(0, i as int));
    }
    assert(v@.subrange(0, v@.len() as int) =~= v@);
    r
}

/// True when `s` holds a string equal to `x`.
pub fn contains_text(s: &Vec<String>, x: &String) -> (r: bool)
    ensures
        r == texts(s@).contains(x@),
{
    let mut i: usize = 0;
    while i < s.len()
        invariant
            i <= s@.len(),
            forall|j: int| 0 <= j < i ==> s@[j]@ != x@,
        decreases s@.len() - i,
    {
        if s[i] == *x {
            assert(texts(s@)[i as int] == x@);
            return true;
        }
        i = i + 1;
    }
    assert forall|j: int| 0 <= j < texts(s@).len() implies texts(s@)[j] != x@ by {
        assert(s@[j]@ != x@);
    }
    false
}

/// True when `s` holds the identifier `x`.
pub fn contains_id(s: &Vec<u64>, x: u64) -> (r: bool)
    ensures
        r == s@.contains(x),
{
    let mut i: usize = 0;
    while i < s.len()
        invariant
            i <= s@.len(),
            forall|j: int| 0 <= j < i ==> s@[j] != x,
        decreases s@.len() - i,
    {
        if s[i] == x {
            assert(s@[i as int] == x);
            return true;
        }
        i = i + 1;
    }
    false
}

impl DeveloperProfile {
    /// A field-by-field copy.
    pub fn copy(&self) -> (r: Self)
        ensures
            r@ == self@,
    {
        DeveloperProfile {
            name: self.name.clone(),
            location: self.location.clone(),
            ideas: copy_strings(&self.ideas),
            groups: copy_ids(&self.groups),
        }
    }
}

impl SocialGroup {
    /// A field-by-field copy.
    pub fn copy(&self) -> (r: Self)
        ensures
            r@ == self@,
    {
        SocialGroup {
            id: self.id,
            name: self.name.clone(),
            idea: self.idea.clone(),
            members: copy_ids(&self.members),
        }
    }
}

impl Message {
    /// A field-by-field copy.
    pub fn copy(&self) -> (r: Self)
        ensures
            r@ == self@,
    {
        Message { sender_id: self.sender_id, group_id: self.group_id, content: self.content.clone() }
    }
}

/// The kind of record that a lookup was for.
#[derive(Clone, Copy, Debug, PartialEq, Eq, Structural)]
pub enum EntityKind {
    Developer,
    SocialGroup,
    Message,
}

/// Why an operation failed.
#[derive(Clone, Copy, Debug, PartialEq, Eq, Structural)]
pub enum BackendError {
    /// No record of `kind` is stored under `id`.
    NotFound { kind: EntityKind, id: u64 },
    /// The group's topic is not among the developer's ideas.
    IdeaMismatch { developer_id: u64, group_id: u64 },
    /// The sender is not a member of the group.
    NotMember { sender_id: u64, group_id: u64 },
}

} // verus!
