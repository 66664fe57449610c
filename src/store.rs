use vstd::prelude::*;
use vstd::string::*;
use crate::inbound::{after_author_ok, Activity, ArticleNewReaction, InboundEffect, UnixMillis};
use crate::order::{lemma_str_lt_irreflexive, lemma_str_lt_transitive, lemma_str_lt_trichotomy, str_less, str_lt};
use crate::queue::BATCH_SIZE;
use crate::text::str_eq;

verus! {

/// One follower row of a user.
#[derive(Debug, Clone)]
pub struct Follower {
    pub actor: String,
    pub inbox: String,
    pub event_id: String,
}

/// The follower rows of one user, in the order they were added.
#[derive(Debug)]
pub struct FollowerList {
    pub followers: Vec<Follower>,
}

/// `b` is one page of the distinct inboxes of `inboxes` that sort after
/// `last`: at most `BATCH_SIZE` of them, strictly ascending, with none skipped
/// up to the page's last one (and none left at all when the page is not full);
/// `cursor` is the last inbox of the page, or empty for an empty page.
pub open spec fn is_inbox_batch(
    inboxes: Set<Seq<char>>,
    last: Seq<char>,
    b: Seq<Seq<char>>,
    cursor: Seq<char>,
) -> bool {
    &&& b.len() <= BATCH_SIZE
    &&& forall|i: int| 0 <= i < b.len() ==> inboxes.contains(#[trigger] b[i]) && str_lt(last, b[i])
    &&& forall|i: int, j: int| 0 <= i < j < b.len() ==> str_lt(#[trigger] b[i], #[trigger] b[j])
    &&& cursor == (if b.len() == 0 {
        Seq::<char>::empty()
    } else {
        b.last()
    })
    &&& forall|y: Seq<char>|
        #![trigger inboxes.contains(y)]
        inboxes.contains(y) && str_lt(last, y) && (b.len() < BATCH_SIZE || !str_lt(b.last(), y))
            ==> b.contains(y)
}

impl FollowerList {
    /// The set of inboxes of the rows.
    pub open spec fn inboxes(self) -> Set<Seq<char>> {
        Set::new(|x: Seq<char>| exists|i: int| 0 <= i < self.followers.len() && #[trigger] self.followers[i].inbox@ == x)
    }

    pub fn new() -> (r: FollowerList)
        ensures
            r.followers@.len() == 0,
    {
        FollowerList { followers: Vec::new() }
    }

    /// Adds a row; rows are keyed by event, so one actor may hold several.
    pub fn add_follower(&mut self, actor: &str, inbox: &str, event_id: &str)
        ensures
            final(self).followers@.len() == old(self).followers@.len() + 1,
            final(self).followers@.subrange(0, old(self).followers@.len() as int) == old(self).followers@,
            ({
                let f = final(self).followers@.last();
                f.actor@ == actor@ && f.inbox@ == inbox@ && f.event_id@ == event_id@
            }),
    {
        let f = Follower { actor: actor.to_owned(), inbox: inbox.to_owned(), event_id: event_id.to_owned() };
        self.followers.push(f);
        assert(self.followers@.subrange(0, old(self).followers@.len() as int) =~= old(self).followers@);
    }

    /// The number of rows.
    pub fn get_followers_len(&self) -> (r: usize)
        ensures
            r == self.followers@.len(),
    {
        self.followers.len()
    }

    /// The least inbox that sorts after `last`.
    fn min_inbox_after(&self, last: &str) -> (r: Option<String>)
        ensures
            match r {
                Some(m) => self.inboxes().contains(m@) && str_lt(last@, m@) && forall|y: Seq<char>|
                    #![trigger self.inboxes().contains(y)]
                    self.inboxes().contains(y) && str_lt(last@, y) ==> !str_lt(y, m@),
                None => forall|y: Seq<char>|
                    #![trigger self.inboxes().contains(y)]
                    self.inboxes().contains(y) ==> !str_lt(last@, y),
            },
    {
        let n = self.followers.len();
        let mut best: Option<String> = None;
        let mut i: usize = 0;
        while i < n
            invariant
                n == self.followers@.len(),
                i <= n,
                match best {
                    Some(m) => self.inboxes().contains(m@) && str_lt(last@, m@) && forall|k: int|
                        0 <= k < i && str_lt(last@, #[trigger] self.followers@[k].inbox@) ==> !str_lt(
                            self.followers@[k].inbox@,
                            m@,
                        ),
                    None => forall|k: int|
                        0 <= k < i ==> !str_lt(last@, #[trigger] self.followers@[k].inbox@),
                },
            decreases n - i,
        {
            let x = &self.followers[i].inbox;
            assert(self.inboxes().contains(x@)) by {
                assert(self.followers@[i as int].inbox@ == x@);
            }
            if str_less(last, x.as_str()) {
                let replace = match &best {
                    None => true,
                    Some(m) => str_less(x.as_str(), m.as_str()),
                };
                if replace {
                    proof {
                        if best is Some {
                            let m = best->Some_0;
                            assert forall|k: int|
                                0 <= k < i + 1 && str_lt(last@, #[trigger] self.followers@[k].inbox@)
                                    implies !str_lt(self.followers@[k].inbox@, x@) by {
                                let z = self.followers@[k].inbox@;
                                if k < i {
                                    if str_lt(z, x@) {
                                        lemma_str_lt_transitive(z, x@, m@);
                                    }
                                } else {
                                    lemma_str_lt_irreflexive(x@);
                                }
                            }
                        } else {
                            assert forall|k: int|
                                0 <= k < i + 1 && str_lt(last@, #[trigger] self.followers@[k].inbox@)
                                    implies !str_lt(self.followers@[k].inbox@, x@) by {
                                lemma_str_lt_irreflexive(x@);
                            }
                        }
                    }
                    best = Some(x.clone());
                } else {
                    proof {
                        if best is Some {
                            lemma_str_lt_trichotomy(x@, best->Some_0@);
                        }
                    }
                }
            }
            i = i + 1;
        }
        proof {
            if best is Some {
                    let m = best->Some_0;
                    assert forall|y: Seq<char>|
                        #![trigger self.inboxes().contains(y)]
                        self.inboxes().contains(y) && str_lt(last@, y) implies !str_lt(y, m@) by {
                        let k = choose|k: int| 0 <= k < self.followers@.len() && #[trigger] self.followers@[k].inbox@ == y;
                    }
            } else {
                    assert forall|y: Seq<char>|
                        #![trigger self.inboxes().contains(y)]
                        self.inboxes().contains(y) implies !str_lt(last@, y) by {
                        let k = choose|k: int| 0 <= k < self.followers@.len() && #[trigger] self.followers@[k].inbox@ == y;
                    }
            }
        }
        best
    }

    /// One page of the distinct follower inboxes that sort after
    /// `last_inbox`, and the cursor for the next page.
    pub fn get_followers_inbox_batch(&self, last_inbox: &str) -> (r: (Vec<String>, String))
        ensures
            is_inbox_batch(self.inboxes(), last_inbox@, strings_view(r.0@), r.1@),
    {
        let mut out: Vec<String> = Vec::new();
        let mut cur = last_inbox.to_owned();
        loop
            invariant
                is_partial_batch(self.inboxes(), last_inbox@, strings_view(out@), cur@),
            decreases BATCH_SIZE - out@.len(),
        {
            let ghost b = strings_view(out@);
            if out.len() >= BATCH_SIZE {
                let cursor = cur.clone();
                return (out, cursor);
            }
            match self.min_inbox_after(cur.as_str()) {
                None => {
                    let cursor = if out.len() == 0 {
                        String::new()
                    } else {
                        cur.clone()
                    };
                    return (out, cursor);
                },
                Some(m) => {
                    proof {
                        assert forall|i: int| 0 <= i < b.len() implies str_lt(#[trigger] b[i], m@) by {
                            if i < b.len() - 1 {
                                lemma_str_lt_transitive(b[i], b.last(), m@);
                            }
                        }
                        if b.len() > 0 {
                            lemma_str_lt_transitive(last_inbox@, cur@, m@);
                        }
                        assert forall|y: Seq<char>|
                            #![trigger self.inboxes().contains(y)]
                            self.inboxes().contains(y) && str_lt(last_inbox@, y) && !str_lt(m@, y)
                                implies b.push(m@).contains(y) by {
                            lemma_str_lt_trichotomy(m@, y);
                            if str_lt(cur@, y) {
                                assert(y == m@);
                                assert(b.push(m@)[b.len() as int] == y);
                            } else {
                                let k = choose|k: int| 0 <= k < b.len() && b[k] == y;
                                assert(b.push(m@)[k] == y);
                            }
                        }
                    }
                    cur = m.clone();
                    out.push(m);
                    assert(strings_view(out@) =~= b.push(cur@));
                },
            }
        }
    }
}

/// The character views of a list of strings.
pub open spec fn strings_view(v: Seq<String>) -> Seq<Seq<char>> {
    v.map_values(|s: String| s@)
}

/// The loop state of a page being filled: what `is_inbox_batch` asks, with
/// `cur` the last inbox taken so far (`last` before the first).
pub open spec fn is_partial_batch(inboxes: Set<Seq<char>>, last: Seq<char>, b: Seq<Seq<char>>, cur: Seq<char>) -> bool {
    &&& b.len() <= BATCH_SIZE
    &&& forall|i: int| 0 <= i < b.len() ==> inboxes.contains(#[trigger] b[i]) && str_lt(last, b[i])
    &&& forall|i: int, j: int| 0 <= i < j < b.len() ==> str_lt(#[trigger] b[i], #[trigger] b[j])
    &&& cur == (if b.len() == 0 {
        last
    } else {
        b.last()
    })
    &&& forall|y: Seq<char>|
        #![trigger inboxes.contains(y)]
        inboxes.contains(y) && str_lt(last, y) && !str_lt(cur, y) ==> b.contains(y)
}

/// The rows not made by the follow event `event_id`, in order.
pub open spec fn rows_without_event(s: Seq<Follower>, event_id: Seq<char>) -> Seq<Follower>
    decreases s.len(),
{
    if s.len() == 0 {
        s
    } else {
        let rest = rows_without_event(s.drop_last(), event_id);
        if s.last().event_id@ == event_id {
            rest
        } else {
            rest.push(s.last())
        }
    }
}

/// The rows whose actor is not `actor`, in order.
pub open spec fn rows_without_actor(s: Seq<Follower>, actor: Seq<char>) -> Seq<Follower>
    decreases s.len(),
{
    if s.len() == 0 {
        s
    } else {
        let rest = rows_without_actor(s.drop_last(), actor);
        if s.last().actor@ == actor {
            rest
        } else {
            rest.push(s.last())
        }
    }
}

fn copy_follower(f: &Follower) -> (r: Follower)
    ensures
        r == *f,
{
    Follower { actor: f.actor.clone(), inbox: f.inbox.clone(), event_id: f.event_id.clone() }
}

impl FollowerList {
    /// Removes the row of the follow event `event_id` (an undone follow).
    pub fn remove_follower(&mut self, event_id: &str)
        ensures
            final(self).followers@ == rows_without_event(old(self).followers@, event_id@),
    {
        let n = self.followers.len();
        let mut out: Vec<Follower> = Vec::new();
        let mut i: usize = 0;
        assert(self.followers@.subrange(0, 0) =~= Seq::<Follower>::empty());
        while i < n
            invariant
                n == self.followers@.len(),
                i <= n,
                out@ == rows_without_event(self.followers@.subrange(0, i as int), event_id@),
            decreases n - i,
        {
            assert(self.followers@.subrange(0, i + 1).drop_last() =~= self.followers@.subrange(0, i as int));
            if !str_eq(self.followers[i].event_id.as_str(), event_id) {
                out.push(copy_follower(&self.followers[i]));
            }
            i = i + 1;
        }
        assert(self.followers@.subrange(0, n as int) =~= self.followers@);
        self.followers = out;
    }

    /// Removes every row of the actor `actor`.
    pub fn remove_follower_by_actor(&mut self, actor: &str)
        ensures
            final(self).followers@ == rows_without_actor(old(self).followers@, actor@),
    {
        let n = self.followers.len();
        let mut out: Vec<Follower> = Vec::new();
        let mut i: usize = 0;
        assert(self.followers@.subrange(0, 0) =~= Seq::<Follower>::empty());
        while i < n
            invariant
                n == self.followers@.len(),
                i <= n,
                out@ == rows_without_actor(self.followers@.subrange(0, i as int), actor@),
            decreases n - i,
        {
            assert(self.followers@.subrange(0, i + 1).drop_last() =~= self.followers@.subrange(0, i as int));
            if !str_eq(self.followers[i].actor.as_str(), actor) {
                out.push(copy_follower(&self.followers[i]));
            }
            i = i + 1;
        }
        assert(self.followers@.subrange(0, n as int) =~= self.followers@);
        self.followers = out;
    }
}

/// The reactions not made by `author`, in order.
pub open spec fn reactions_without(s: Seq<ArticleNewReaction>, author: Seq<char>) -> Seq<ArticleNewReaction>
    decreases s.len(),
{
    if s.len() == 0 {
        s
    } else {
        let rest = reactions_without(s.drop_last(), author);
        if s.last().author_id@ == author {
            rest
        } else {
            rest.push(s.last())
        }
    }
}

fn copy_reaction(x: &ArticleNewReaction) -> (r: ArticleNewReaction)
    ensures
        r == *x,
{
    ArticleNewReaction {
        id: x.id.clone(),
        author_id: x.author_id.clone(),
        reaction: x.reaction.clone(),
        proceed_at: x.proceed_at,
        raw: x.raw.clone(),
    }
}

/// The reactions recorded on one article: at most one per actor.
#[derive(Debug)]
pub struct ReactionList {
    pub reactions: Vec<ArticleNewReaction>,
}

/// No two reactions come from the same actor.
pub open spec fn one_per_actor(s: Seq<ArticleNewReaction>) -> bool {
    forall|i: int, j: int|
        0 <= i < j < s.len() ==> (#[trigger] s[i]).author_id@ != (#[trigger] s[j]).author_id@
}

proof fn lemma_reactions_without_keeps(s: Seq<ArticleNewReaction>, author: Seq<char>)
    requires
        one_per_actor(s),
    ensures
        one_per_actor(reactions_without(s, author)),
        forall|i: int|
            0 <= i < reactions_without(s, author).len() ==> exists|j: int|
                0 <= j < s.len() && s[j] == #[trigger] reactions_without(s, author)[i],
    decreases s.len(),
{
    if s.len() > 0 {
        let init = s.drop_last();
        assert(one_per_actor(init)) by {
            assert forall|i: int, j: int| 0 <= i < j < init.len() implies (#[trigger] init[i]).author_id@
                != (#[trigger] init[j]).author_id@ by {
                assert(init[i] == s[i] && init[j] == s[j]);
            }
        }
        lemma_reactions_without_keeps(init, author);
        let rest = reactions_without(init, author);
        if s.last().author_id@ != author {
            let r2 = rest.push(s.last());
            assert forall|i: int| 0 <= i < r2.len() implies exists|j: int|
                0 <= j < s.len() && s[j] == #[trigger] r2[i] by {
                if i < rest.len() {
                    let j = choose|j: int| 0 <= j < init.len() && init[j] == rest[i];
                    assert(s[j] == r2[i]);
                } else {
                    assert(s[s.len() - 1] == r2[i]);
                }
            }
            assert forall|i: int, j: int| 0 <= i < j < r2.len() implies (#[trigger] r2[i]).author_id@
                != (#[trigger] r2[j]).author_id@ by {
                if j == rest.len() {
                    let k = choose|k: int| 0 <= k < init.len() && init[k] == rest[i];
                    assert(s[k] == init[k]);
                    assert(s[s.len() - 1] == r2[j]);
                } else {
                    assert(r2[i] == rest[i] && r2[j] == rest[j]);
                }
            }
        } else {
            assert forall|i: int| 0 <= i < rest.len() implies exists|j: int|
                0 <= j < s.len() && s[j] == #[trigger] rest[i] by {
                let j = choose|j: int| 0 <= j < init.len() && init[j] == rest[i];
                assert(s[j] == rest[i]);
            }
        }
    }
}

impl ReactionList {
    /// At most one reaction per actor.
    pub open spec fn well_formed(self) -> bool {
        one_per_actor(self.reactions@)
    }

    pub fn new() -> (r: ReactionList)
        ensures
            r.reactions@.len() == 0,
            r.well_formed(),
    {
        ReactionList { reactions: Vec::new() }
    }

    /// Removes the reactions of `actor` (an undone like).
    pub fn remove_reaction_by(&mut self, actor: &str)
        requires
            old(self).well_formed(),
        ensures
            final(self).reactions@ == reactions_without(old(self).reactions@, actor@),
            final(self).well_formed(),
    {
        proof {
            lemma_reactions_without_keeps(self.reactions@, actor@);
        }
        let n = self.reactions.len();
        let mut out: Vec<ArticleNewReaction> = Vec::new();
        let mut i: usize = 0;
        assert(self.reactions@.subrange(0, 0) =~= Seq::<ArticleNewReaction>::empty());
        while i < n
            invariant
                n == self.reactions@.len(),
                i <= n,
                out@ == reactions_without(self.reactions@.subrange(0, i as int), actor@),
            decreases n - i,
        {
            assert(self.reactions@.subrange(0, i + 1).drop_last() =~= self.reactions@.subrange(0, i as int));
            if !str_eq(self.reactions[i].author_id.as_str(), actor) {
                out.push(copy_reaction(&self.reactions[i]));
            }
            i = i + 1;
        }
        assert(self.reactions@.subrange(0, n as int) =~= self.reactions@);
        self.reactions = out;
    }

    /// Records a reaction; it replaces an earlier one of the same actor.
    pub fn add_reaction(&mut self, reaction: ArticleNewReaction)
        requires
            old(self).well_formed(),
        ensures
            final(self).reactions@ == reactions_without(old(self).reactions@, reaction.author_id@).push(
                reaction,
            ),
            final(self).well_formed(),
    {
        self.remove_reaction_by(reaction.author_id.as_str());
        let ghost rest = self.reactions@;
        proof {
            lemma_reactions_without_idempotent(old(self).reactions@, reaction.author_id@);
        }
        self.reactions.push(reaction);
        assert forall|i: int, j: int| 0 <= i < j < self.reactions@.len() implies (
        #[trigger] self.reactions@[i]).author_id@ != (#[trigger] self.reactions@[j]).author_id@ by {
            if j < rest.len() {
                assert(self.reactions@[i] == rest[i] && self.reactions@[j] == rest[j]);
            } else {
                assert(self.reactions@[i] == rest[i]);
            }
        }
    }

    /// Carries out what the inbound rules decided for this article's reactions:
    /// records a reaction, removes an actor's reactions, or leaves them.
    pub fn apply_effect(&mut self, effect: InboundEffect)
        requires
            old(self).well_formed(),
        ensures
            final(self).reactions@ == reactions_after(old(self).reactions@, effect),
            final(self).well_formed(),
    {
        match effect {
            InboundEffect::AddReaction { reaction, .. } => self.add_reaction(reaction),
            InboundEffect::RemoveReactionBy { actor, .. } => self.remove_reaction_by(actor.as_str()),
            _ => {},
        }
    }

    /// The number of reactions.
    pub fn reaction_count(&self) -> (r: usize)
        ensures
            r == self.reactions@.len(),
    {
        self.reactions.len()
    }
}

proof fn lemma_reactions_without_idempotent(s: Seq<ArticleNewReaction>, author: Seq<char>)
    ensures
        reactions_without(reactions_without(s, author), author) == reactions_without(s, author),
        forall|i: int|
            0 <= i < reactions_without(s, author).len() ==> (#[trigger] reactions_without(s, author)[i]).author_id@
                != author,
    decreases s.len(),
{
    if s.len() > 0 {
        lemma_reactions_without_idempotent(s.drop_last(), author);
        let rest = reactions_without(s.drop_last(), author);
        if s.last().author_id@ != author {
            assert(rest.push(s.last()).drop_last() =~= rest);
        }
    }
}

/// Undoing a reaction is idempotent: after `add_reaction(r)`, removing the
/// reactions of `r`'s author leaves exactly the other actors' reactions of
/// before, and removing them again changes nothing; from no reactions the
/// count is 0 both times.
pub proof fn lemma_reaction_idempotence(before: Seq<ArticleNewReaction>, r: ArticleNewReaction)
    ensures
        ({
            let added = reactions_without(before, r.author_id@).push(r);
            let once = reactions_without(added, r.author_id@);
            let twice = reactions_without(once, r.author_id@);
            &&& once == reactions_without(before, r.author_id@)
            &&& twice == once
            &&& before.len() == 0 ==> once.len() == 0 && twice.len() == 0
        }),
{
    let a = r.author_id@;
    let added = reactions_without(before, a).push(r);
    assert(added.drop_last() =~= reactions_without(before, a));
    lemma_reactions_without_idempotent(before, a);
}

/// The pages of a walk, one after another.
pub open spec fn concat_batches(bs: Seq<Seq<Seq<char>>>) -> Seq<Seq<char>>
    decreases bs.len(),
{
    if bs.len() == 0 {
        Seq::empty()
    } else {
        concat_batches(bs.drop_last()) + bs.last()
    }
}

/// What the first `k` pages of a walk have handed out.
pub open spec fn walk_invariant(inboxes: Set<Seq<char>>, cursor: Seq<char>, all: Seq<Seq<char>>, k: int) -> bool {
    &&& forall|i: int, j: int| 0 <= i < j < all.len() ==> str_lt(#[trigger] all[i], #[trigger] all[j])
    &&& forall|i: int|
        0 <= i < all.len() ==> inboxes.contains(#[trigger] all[i]) && str_lt(Seq::empty(), all[i]) && !str_lt(
            cursor,
            all[i],
        )
    &&& forall|y: Seq<char>|
        #![trigger inboxes.contains(y)]
        inboxes.contains(y) && str_lt(Seq::empty(), y) && !str_lt(cursor, y) ==> all.contains(y)
    &&& k == 0 ==> all.len() == 0 && cursor == Seq::<char>::empty()
}

proof fn lemma_le_lt(x: Seq<char>, c: Seq<char>, z: Seq<char>)
    requires
        !str_lt(c, x),
        str_lt(c, z),
    ensures
        str_lt(x, z),
{
    lemma_str_lt_trichotomy(x, c);
    if x != c {
        lemma_str_lt_transitive(x, c, z);
    }
}

proof fn lemma_walk_step(
    inboxes: Set<Seq<char>>,
    c: Seq<char>,
    all: Seq<Seq<char>>,
    k: int,
    b: Seq<Seq<char>>,
    c2: Seq<char>,
)
    requires
        k >= 0,
        walk_invariant(inboxes, c, all, k),
        is_inbox_batch(inboxes, c, b, c2),
        b.len() > 0,
    ensures
        walk_invariant(inboxes, c2, all + b, k + 1),
{
    let all2 = all + b;
    assert forall|i: int, j: int| 0 <= i < j < all2.len() implies str_lt(#[trigger] all2[i], #[trigger] all2[j]) by {
        if j >= all.len() && i < all.len() {
            assert(b[j - all.len()] == all2[j]);
            lemma_le_lt(all[i], c, b[j - all.len()]);
        } else if i >= all.len() {
            assert(all2[i] == b[i - all.len()]);
            assert(all2[j] == b[j - all.len()]);
        }
    }
    assert forall|i: int| 0 <= i < all2.len() implies inboxes.contains(#[trigger] all2[i]) && str_lt(
        Seq::empty(),
        all2[i],
    ) && !str_lt(c2, all2[i]) by {
        lemma_str_lt_irreflexive(c2);
        if i < all.len() {
            lemma_le_lt(all[i], c, b.last());
            lemma_str_lt_trichotomy(all[i], c2);
        } else {
            let x = b[i - all.len()];
            assert(all2[i] == x);
            assert(str_lt(c, x));
            assert(x.len() > 0);
            if i - all.len() < b.len() - 1 {
                assert(str_lt(b[i - all.len()], b[b.len() - 1]));
                lemma_str_lt_trichotomy(x, c2);
            }
        }
    }
    assert forall|y: Seq<char>|
        #![trigger inboxes.contains(y)]
        inboxes.contains(y) && str_lt(Seq::empty(), y) && !str_lt(c2, y) implies all2.contains(y) by {
        if !str_lt(c, y) {
            let i = choose|i: int| 0 <= i < all.len() && all[i] == y;
            assert(all2[i] == y);
        } else {
            assert(b.contains(y));
            let i = choose|i: int| 0 <= i < b.len() && b[i] == y;
            assert(all2[all.len() + i] == y);
        }
    }
}

proof fn lemma_walk_prefix(
    inboxes: Set<Seq<char>>,
    cursors: Seq<Seq<char>>,
    batches: Seq<Seq<Seq<char>>>,
    k: int,
)
    requires
        0 <= k < batches.len(),
        cursors.len() == batches.len() + 1,
        cursors[0] == Seq::<char>::empty(),
        forall|t: int|
            0 <= t < batches.len() ==> is_inbox_batch(inboxes, cursors[t], #[trigger] batches[t], cursors[t + 1]),
        forall|t: int| 0 <= t < batches.len() - 1 ==> (#[trigger] batches[t]).len() > 0,
    ensures
        walk_invariant(inboxes, cursors[k], concat_batches(batches.subrange(0, k)), k),
    decreases k,
{
    if k == 0 {
        assert(concat_batches(batches.subrange(0, 0)) =~= Seq::<Seq<char>>::empty());
        lemma_str_lt_irreflexive(Seq::<char>::empty());
    } else {
        lemma_walk_prefix(inboxes, cursors, batches, k - 1);
        assert(batches.subrange(0, k).drop_last() =~= batches.subrange(0, k - 1));
        assert(batches.subrange(0, k).last() == batches[k - 1]);
        lemma_walk_step(
            inboxes,
            cursors[k - 1],
            concat_batches(batches.subrange(0, k - 1)),
            k - 1,
            batches[k - 1],
            cursors[k],
        );
    }
}

/// Walking the pages of `get_followers_inbox_batch` from the empty cursor,
/// each call taking the cursor the previous one returned, until a page comes
/// back empty, hands out every non-empty follower inbox exactly once, in
/// strictly ascending order.
pub proof fn lemma_pagination(inboxes: Set<Seq<char>>, cursors: Seq<Seq<char>>, batches: Seq<Seq<Seq<char>>>)
    requires
        batches.len() >= 1,
        cursors.len() == batches.len() + 1,
        cursors[0] == Seq::<char>::empty(),
        forall|k: int|
            0 <= k < batches.len() ==> is_inbox_batch(inboxes, cursors[k], #[trigger] batches[k], cursors[k + 1]),
        forall|k: int| 0 <= k < batches.len() - 1 ==> (#[trigger] batches[k]).len() > 0,
        batches.last().len() == 0,
    ensures
        forall|i: int, j: int|
            0 <= i < j < concat_batches(batches).len() ==> str_lt(
                #[trigger] concat_batches(batches)[i],
                #[trigger] concat_batches(batches)[j],
            ),
        forall|y: Seq<char>|
            (inboxes.contains(y) && y.len() > 0) <==> #[trigger] concat_batches(batches).contains(y),
{
    let n = batches.len() - 1;
    lemma_walk_prefix(inboxes, cursors, batches, n);
    let all = concat_batches(batches.subrange(0, n));
    assert(batches.drop_last() =~= batches.subrange(0, n));
    assert(concat_batches(batches) =~= all);
    let c = cursors[n];
    assert(is_inbox_batch(inboxes, c, batches[n], cursors[n + 1]));
    assert forall|y: Seq<char>|
        (inboxes.contains(y) && y.len() > 0) <==> #[trigger] all.contains(y) by {
        if inboxes.contains(y) && y.len() > 0 {
            assert(str_lt(Seq::empty(), y));
            if str_lt(c, y) {
                assert(batches[n].contains(y));
            }
        }
        if all.contains(y) {
            let i = choose|i: int| 0 <= i < all.len() && all[i] == y;
            assert(inboxes.contains(all[i]));
        }
    }
}

/// The reactions after an inbound effect is carried out.
pub open spec fn reactions_after(s: Seq<ArticleNewReaction>, effect: InboundEffect) -> Seq<ArticleNewReaction> {
    match effect {
        InboundEffect::AddReaction { reaction, .. } => reactions_without(s, reaction.author_id@).push(reaction),
        InboundEffect::RemoveReactionBy { actor, .. } => reactions_without(s, actor@),
        _ => s,
    }
}

proof fn lemma_reactions_without_absent(s: Seq<ArticleNewReaction>, author: Seq<char>)
    requires
        forall|i: int| 0 <= i < s.len() ==> (#[trigger] s[i]).author_id@ != author,
    ensures
        reactions_without(s, author) == s,
    decreases s.len(),
{
    if s.len() > 0 {
        lemma_reactions_without_absent(s.drop_last(), author);
        assert(s.drop_last().push(s.last()) =~= s);
    }
}

/// A like followed by its undo, run through the inbound rules and carried out
/// on an article of `username` that held no reaction of the liking actor:
/// the like adds one reaction, the undo takes the count back to where it was,
/// and a second identical undo changes nothing (no underflow).
pub proof fn lemma_reaction_then_undo(
    before: Seq<ArticleNewReaction>,
    username: Seq<char>,
    like: Activity,
    undo: Activity,
    raw: Seq<char>,
    slug: Seq<char>,
    author: Option<String>,
    now: UnixMillis,
    on_like: InboundEffect,
    on_undo: InboundEffect,
)
    requires
        like matches Activity::Like { .. },
        undo matches Activity::Undo { object, .. } && *object matches Activity::Like { actor, .. } && actor
            == like->Like_actor,
        author matches Some(a) && a@ == username,
        forall|i: int| 0 <= i < before.len() ==> (#[trigger] before[i]).author_id@ != like->Like_actor@,
        after_author_ok(username, like, raw, slug, author, now, on_like),
        after_author_ok(username, undo, raw, slug, author, now, on_undo),
    ensures
        reactions_after(before, on_like).len() == before.len() + 1,
        reactions_after(reactions_after(before, on_like), on_undo) == before,
        reactions_after(reactions_after(reactions_after(before, on_like), on_undo), on_undo) == before,
{
    let a = like->Like_actor@;
    lemma_reactions_without_absent(before, a);
    let s1 = reactions_after(before, on_like);
    assert(s1 == before.push(on_like->AddReaction_reaction));
    assert(s1.drop_last() =~= before);
    assert(reactions_after(s1, on_undo) == reactions_without(s1, a));
    assert(reactions_without(s1, a) == before);
}

} // verus!
