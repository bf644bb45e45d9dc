use vstd::prelude::*;

use crate::records::{
    contains_id, contains_text, texts, BackendError, DeveloperProfile, DeveloperProfileView,
    EntityKind, Message, MessageView, SocialGroup, SocialGroupView,
};
use crate::store::{next_counter, next_id, RecordStore};

verus! {

/// The state of the service: one identifier counter and one table per kind of
/// record. Every operation runs to completion before the next one starts.
pub struct Backend {
    next_developer_id: u64,
    next_group_id: u64,
    next_message_id: u64,
    developers: RecordStore<DeveloperProfile>,
    groups: RecordStore<SocialGroup>,
    messages: RecordStore<Message>,
}

/// The abstract state: counters, tables by identifier, and the order in which
/// each table enumerates its identifiers.
pub struct BackendView {
    pub next_developer_id: u64,
    pub next_group_id: u64,
    pub next_message_id: u64,
    pub developers: Map<u64, DeveloperProfileView>,
    pub groups: Map<u64, SocialGroupView>,
    pub messages: Map<u64, MessageView>,
    pub developer_ids: Seq<u64>,
    pub group_ids: Seq<u64>,
    pub message_ids: Seq<u64>,
}

/// The state with no records and every counter at 0.
pub open spec fn empty_state() -> BackendView {
    BackendView {
        next_developer_id: 0,
        next_group_id: 0,
        next_message_id: 0,
        developers: Map::empty(),
        groups: Map::empty(),
        messages: Map::empty(),
        developer_ids: Seq::empty(),
        group_ids: Seq::empty(),
        message_ids: Seq::empty(),
    }
}

/// The enumeration after storing under `id`: a new identifier goes last.
pub open spec fn listed_after<V>(ids: Seq<u64>, table: Map<u64, V>, id: u64) -> Seq<u64> {
    if table.contains_key(id) {
        ids
    } else {
        ids.push(id)
    }
}

/// The state after storing `p` under developer identifier `id`.
pub open spec fn with_developer(v: BackendView, id: u64, p: DeveloperProfileView) -> BackendView {
    BackendView {
        developers: v.developers.insert(id, p),
        developer_ids: listed_after(v.developer_ids, v.developers, id),
        ..v
    }
}

/// The state after storing `g` under group identifier `id`.
pub open spec fn with_group(v: BackendView, id: u64, g: SocialGroupView) -> BackendView {
    BackendView {
        groups: v.groups.insert(id, g),
        group_ids: listed_after(v.group_ids, v.groups, id),
        ..v
    }
}

/// The state after storing `m` under message identifier `id`.
pub open spec fn with_message(v: BackendView, id: u64, m: MessageView) -> BackendView {
    BackendView {
        messages: v.messages.insert(id, m),
        message_ids: listed_after(v.message_ids, v.messages, id),
        ..v
    }
}

/// A new profile: the given fields and no groups.
pub open spec fn new_profile(name: Seq<char>, location: Seq<char>, ideas: Seq<Seq<char>>) -> DeveloperProfileView {
    DeveloperProfileView { name, location, ideas, groups: Seq::empty() }
}

/// The state after creating a developer profile, and the identifier it got.
pub open spec fn created_developer(
    v: BackendView,
    name: Seq<char>,
    location: Seq<char>,
    ideas: Seq<Seq<char>>,
) -> (BackendView, u64) {
    let id = v.next_developer_id;
    let w = BackendView { next_developer_id: next_counter(id), ..v };
    (with_developer(w, id, new_profile(name, location, ideas)), id)
}

/// The state after creating a social group.
pub open spec fn created_group(v: BackendView, name: Seq<char>, idea: Seq<char>) -> BackendView {
    let id = v.next_group_id;
    let w = BackendView { next_group_id: next_counter(id), ..v };
    with_group(w, id, SocialGroupView { id, name, idea, members: Seq::empty() })
}

/// What `join_social_group(d, g)` returns in state `v`.
pub open spec fn join_outcome(v: BackendView, d: u64, g: u64) -> Result<(), BackendError> {
    if !v.developers.contains_key(d) {
        Err(BackendError::NotFound { kind: EntityKind::Developer, id: d })
    } else if !v.groups.contains_key(g) {
        Err(BackendError::NotFound { kind: EntityKind::SocialGroup, id: g })
    } else if !v.developers[d].ideas.contains(v.groups[g].idea) {
        Err(BackendError::IdeaMismatch { developer_id: d, group_id: g })
    } else {
        Ok(())
    }
}

/// The state after developer `d` joins group `g`: `d` is appended to the
/// group's members and `g` to the developer's groups.
pub open spec fn joined(v: BackendView, d: u64, g: u64) -> BackendView {
    let group = v.groups[g];
    let w = with_group(v, g, SocialGroupView { members: group.members.push(d), ..group });
    let dev = v.developers[d];
    with_developer(w, d, DeveloperProfileView { groups: dev.groups.push(g), ..dev })
}

/// Whether `send_message(s, g, _)` may proceed in state `v`, or why not.
pub open spec fn send_outcome(v: BackendView, s: u64, g: u64) -> Result<(), BackendError> {
    if !v.developers.contains_key(s) {
        Err(BackendError::NotFound { kind: EntityKind::Developer, id: s })
    } else if !v.groups.contains_key(g) {
        Err(BackendError::NotFound { kind: EntityKind::SocialGroup, id: g })
    } else if !v.groups[g].members.contains(s) {
        Err(BackendError::NotMember { sender_id: s, group_id: g })
    } else {
        Ok(())
    }
}

/// The state after a message with `content` from `s` to `g` is stored.
pub open spec fn sent(v: BackendView, s: u64, g: u64, content: Seq<char>) -> BackendView {
    let id = v.next_message_id;
    let w = BackendView { next_message_id: next_counter(id), ..v };
    with_message(w, id, MessageView { sender_id: s, group_id: g, content })
}

impl View for Backend {
    type V = BackendView;

    closed spec fn view(&self) -> BackendView {
        BackendView {
            next_developer_id: self.next_developer_id,
            next_group_id: self.next_group_id,
            next_message_id: self.next_message_id,
            developers: self.developers.records().map_values(|p: DeveloperProfile| p@),
            groups: self.groups.records().map_values(|g: SocialGroup| g@),
            messages: self.messages.records().map_values(|m: Message| m@),
            developer_ids: self.developers.keys(),
            group_ids: self.groups.keys(),
            message_ids: self.messages.keys(),
        }
    }
}

impl Backend {
    pub closed spec fn wf(&self) -> bool {
        &&& self.developers.wf()
        &&& self.groups.wf()
        &&& self.messages.wf()
    }

    /// A service with no records and every counter at 0.
    pub fn new() -> (b: Self)
        ensures
            b.wf(),
            b@ == empty_state(),
    {
        let b = Backend {
            next_developer_id: 0,
            next_group_id: 0,
            next_message_id: 0,
            developers: RecordStore::new(),
            groups: RecordStore::new(),
            messages: RecordStore::new(),
        };
        assert(b@.developers =~= Map::empty());
        assert(b@.groups =~= Map::empty());
        assert(b@.messages =~= Map::empty());
        assert(b@.developer_ids =~= Seq::empty());
        assert(b@.group_ids =~= Seq::empty());
        assert(b@.message_ids =~= Seq::empty());
        b
    }

    /// Stores a profile under `id`, overwriting any profile there.
    pub fn do_insert_developer_profile(&mut self, id: u64, developer_profile: &DeveloperProfile)
        requires
            old(self).wf(),
        ensures
            final(self).wf(),
            final(self)@ == with_developer(old(self)@, id, developer_profile@),
    {
        let p = developer_profile.copy();
        self.developers.insert(id, p);
        assert(self@.developers =~= old(self)@.developers.insert(id, developer_profile@));
    }

    /// Stores a group under `id`, overwriting any group there.
    pub fn do_insert_social_group(&mut self, id: u64, social_group: &SocialGroup)
        requires
            old(self).wf(),
        ensures
            final(self).wf(),
            final(self)@ == with_group(old(self)@, id, social_group@),
    {
        let g = social_group.copy();
        self.groups.insert(id, g);
        assert(self@.groups =~= old(self)@.groups.insert(id, social_group@));
    }

    /// Stores a message under `id`, overwriting any message there.
    pub fn do_insert_message(&mut self, id: u64, message: &Message)
        requires
            old(self).wf(),
        ensures
            final(self).wf(),
            final(self)@ == with_message(old(self)@, id, message@),
    {
        let m = message.copy();
        self.messages.insert(id, m);
        assert(self@.messages =~= old(self)@.messages.insert(id, message@));
    }
    /// Looks up a developer profile.
    pub fn get_developer_profile(&self, id: u64) -> (r: Result<DeveloperProfile, BackendError>)
        requires
            self.wf(),
        ensures
            match r {
                Ok(p) => self@.developers.contains_key(id) && p@ == self@.developers[id],
                Err(e) => !self@.developers.contains_key(id) && e == BackendError::NotFound {
                    kind: EntityKind::Developer,
                    id,
                },
            },
    {
        match self.developers.get(id) {
            Some(p) => Ok(p.copy()),
            None => Err(BackendError::NotFound { kind: EntityKind::Developer, id }),
        }
    }

    /// Looks up a social group.
    pub fn get_social_group(&self, id: u64) -> (r: Result<SocialGroup, BackendError>)
        requires
            self.wf(),
        ensures
            match r {
                Ok(g) => self@.groups.contains_key(id) && g@ == self@.groups[id],
                Err(e) => !self@.groups.contains_key(id) && e == BackendError::NotFound {
                    kind: EntityKind::SocialGroup,
                    id,
                },
            },
    {
        match self.groups.get(id) {
            Some(g) => Ok(g.copy()),
            None => Err(BackendError::NotFound { kind: EntityKind::SocialGroup, id }),
        }
    }

    /// Looks up a message.
    pub fn get_message(&self, id: u64) -> (r: Result<Message, BackendError>)
        requires
            self.wf(),
        ensures
            match r {
                Ok(m) => self@.messages.contains_key(id) && m@ == self@.messages[id],
                Err(e) => !self@.messages.contains_key(id) && e == BackendError::NotFound {
                    kind: EntityKind::Message,
                    id,
                },
            },
    {
        match self.messages.get(id) {
            Some(m) => Ok(m.copy()),
            None => Err(BackendError::NotFound { kind: EntityKind::Message, id }),
        }
    }

    /// Developer `developer_id` joins group `group_id`, provided both exist and
    /// the group's idea is among the developer's ideas. The group is written
    /// before the developer; neither write can fail, so the call leaves either
    /// both records updated or neither. Membership is not checked for
    /// duplicates: a repeated join appends the pair again.
    pub fn join_social_group(&mut self, developer_id: u64, group_id: u64) -> (r: Result<
        (),
        BackendError,
    >)
        requires
            old(self).wf(),
        ensures
            final(self).wf(),
            r == join_outcome(old(self)@, developer_id, group_id),
            r is Ok ==> final(self)@ == joined(old(self)@, developer_id, group_id),
            r is Err ==> final(self)@ == old(self)@,
    {
        let developer_profile = match self.get_developer_profile(developer_id) {
            Ok(p) => p,
            Err(e) => return Err(e),
        };
        let social_group = match self.get_social_group(group_id) {
            Ok(g) => g,
            Err(e) => return Err(e),
        };
        if !contains_text(&developer_profile.ideas, &social_group.idea) {
            return Err(BackendError::IdeaMismatch { developer_id, group_id });
        }
        let ghost v0 = self@;
        let mut group = social_group;
        group.members.push(developer_id);
        self.do_insert_social_group(group_id, &group);
        assert(group@ == (SocialGroupView { members: v0.groups[group_id].members.push(developer_id), ..v0.groups[group_id] }));
        let mut developer = developer_profile;
        developer.groups.push(group_id);
        self.do_insert_developer_profile(developer_id, &developer);
        assert(developer@ == (DeveloperProfileView { groups: v0.developers[developer_id].groups.push(group_id), ..v0.developers[developer_id] }));
        Ok(())
    }

    /// Sends `content` from `sender_id` to `group_id`, provided both exist and
    /// the sender is a member of the group. The message is stored under the
    /// next message identifier.
    pub fn send_message(&mut self, sender_id: u64, group_id: u64, content: String) -> (r: Result<
        Message,
        BackendError,
    >)
        requires
            old(self).wf(),
        ensures
            final(self).wf(),
            match r {
                Ok(m) => {
                    &&& send_outcome(old(self)@, sender_id, group_id) is Ok
                    &&& m@ == (MessageView { sender_id, group_id, content: content@ })
                    &&& final(self)@ == sent(old(self)@, sender_id, group_id, content@)
                },
                Err(e) => {
                    &&& send_outcome(old(self)@, sender_id, group_id) == Err::<(), BackendError>(e)
                    &&& final(self)@ == old(self)@
                },
            },
    {
        if let Err(e) = self.get_developer_profile(sender_id) {
            return Err(e);
        }
        let social_group = match self.get_social_group(group_id) {
            Ok(g) => g,
            Err(e) => return Err(e),
        };
        if !contains_id(&social_group.members, sender_id) {
            return Err(BackendError::NotMember { sender_id, group_id });
        }
        let id = next_id(&mut self.next_message_id);
        let message = Message { sender_id, group_id, content };
        self.do_insert_message(id, &message);
        Ok(message)
    }
    /// Creates a developer profile with no groups under the next developer
    /// identifier, and returns that identifier with the stored profile.
    pub fn create_developer_profile(&mut self, name: String, location: String, ideas: Vec<String>) -> (r: (
        u64,
        DeveloperProfile,
    ))
        requires
            old(self).wf(),
        ensures
            final(self).wf(),
            (final(self)@, r.0) == created_developer(old(self)@, name@, location@, texts(ideas@)),
            r.1@ == new_profile(name@, location@, texts(ideas@)),
    {
        let id = next_id(&mut self.next_developer_id);
        let developer_profile = DeveloperProfile { name, location, ideas, groups: Vec::new() };
        self.do_insert_developer_profile(id, &developer_profile);
        assert(developer_profile@ == new_profile(developer_profile.name@, developer_profile.location@, texts(developer_profile.ideas@)));
        (id, developer_profile)
    }

    /// Creates a social group with no members under the next group identifier,
    /// and returns the stored group.
    pub fn create_social_group(&mut self, name: String, idea: String) -> (r: SocialGroup)
        requires
            old(self).wf(),
        ensures
            final(self).wf(),
            final(self)@ == created_group(old(self)@, name@, idea@),
            r@ == (SocialGroupView {
                id: old(self)@.next_group_id,
                name: name@,
                idea: idea@,
                members: Seq::empty(),
            }),
    {
        let id = next_id(&mut self.next_group_id);
        let social_group = SocialGroup { id, name, idea, members: Vec::new() };
        self.do_insert_social_group(id, &social_group);
        assert(social_group.members@ =~= Seq::<u64>::empty());
        social_group
    }

    /// Every developer profile, in the store's enumeration order.
    pub fn get_all_developer_profiles(&self) -> (r: Vec<DeveloperProfile>)
        requires
            self.wf(),
        ensures
            r@.len() == self@.developer_ids.len(),
            forall|i: int| 0 <= i < r@.len() ==> #[trigger] r@[i]@ == self@.developers[self@.developer_ids[i]],
            self@.developer_ids.no_duplicates(),
            forall|k: u64| #[trigger] self@.developers.contains_key(k) <==> self@.developer_ids.contains(k),
    {
        proof {
            self.developers.lemma_keys_listed();
        }
        let mut r: Vec<DeveloperProfile> = Vec::new();
        let n = self.developers.len();
        let mut i: usize = 0;
        while i < n
            invariant
                self.wf(),
                n == self@.developer_ids.len(),
                i <= n,
                r@.len() == i,
                forall|j: int| 0 <= j < i ==> #[trigger] r@[j]@ == self@.developers[self@.developer_ids[j]],
            decreases n - i,
        {
            let p = self.developers.record_at(i);
            r.push(p.copy());
            i = i + 1;
        }
        r
    }

    /// Every social group, in the store's enumeration order.
    pub fn get_all_social_groups(&self) -> (r: Vec<SocialGroup>)
        requires
            self.wf(),
        ensures
            r@.len() == self@.group_ids.len(),
            forall|i: int| 0 <= i < r@.len() ==> #[trigger] r@[i]@ == self@.groups[self@.group_ids[i]],
            self@.group_ids.no_duplicates(),
            forall|k: u64| #[trigger] self@.groups.contains_key(k) <==> self@.group_ids.contains(k),
    {
        proof {
            self.groups.lemma_keys_listed();
        }
        let mut r: Vec<SocialGroup> = Vec::new();
        let n = self.groups.len();
        let mut i: usize = 0;
        while i < n
            invariant
                self.wf(),
                n == self@.group_ids.len(),
                i <= n,
                r@.len() == i,
                forall|j: int| 0 <= j < i ==> #[trigger] r@[j]@ == self@.groups[self@.group_ids[j]],
            decreases n - i,
        {
            let g = self.groups.record_at(i);
            r.push(g.copy());
            i = i + 1;
        }
        r
    }

    /// Every message, in the store's enumeration order.
    pub fn get_all_messages(&self) -> (r: Vec<Message>)
        requires
            self.wf(),
        ensures
            r@.len() == self@.message_ids.len(),
            forall|i: int| 0 <= i < r@.len() ==> #[trigger] r@[i]@ == self@.messages[self@.message_ids[i]],
            self@.message_ids.no_duplicates(),
            forall|k: u64| #[trigger] self@.messages.contains_key(k) <==> self@.message_ids.contains(k),
    {
        proof {
            self.messages.lemma_keys_listed();
        }
        let mut r: Vec<Message> = Vec::new();
        let n = self.messages.len();
        let mut i: usize = 0;
        while i < n
            invariant
                self.wf(),
                n == self@.message_ids.len(),
                i <= n,
                r@.len() == i,
                forall|j: int| 0 <= j < i ==> #[trigger] r@[j]@ == self@.messages[self@.message_ids[j]],
            decreases n - i,
        {
            let m = self.messages.record_at(i);
            r.push(m.copy());
            i = i + 1;
        }
        r
    }
}

} // verus!
