use vstd::prelude::*;
use vstd::std_specs::cmp::PartialEqSpecImpl;
use vstd::string::StringSliceAdditionalSpecFns;
use crate::text::{bytes_le, lex_le, lemma_lex_le_total, lemma_lex_le_transitive, str_eq};

verus! {

/// A child of a [`BuildNode`] with the number of games that played it.
pub type BuildNodeCount = (u16, BuildNode);

/// A child of a [`Node`] with the number of games that played it.
pub type NodeCount = (u16, Node);

/// A node of an opening book under construction: a move and the replies seen
/// after it, each with the number of games in which it was played.
#[derive(Debug)]
pub struct BuildNode {
    pub joice: String,
    pub children: Vec<BuildNodeCount>,
}

/// A node of a finished opening book.
#[derive(Clone, Copy, Debug)]
pub struct Node {
    pub joice: &'static str,
    pub children: &'static [NodeCount],
}

impl PartialEq for BuildNode {
    /// Two nodes are the same when they stand for the same move.
    fn eq(&self, other: &Self) -> (r: bool) {
        self.joice == other.joice
    }
}

impl PartialEqSpecImpl for BuildNode {
    open spec fn obeys_eq_spec() -> bool {
        true
    }

    open spec fn eq_spec(&self, other: &Self) -> bool {
        self.joice@ == other.joice@
    }
}

impl PartialEq for Node {
    /// Two nodes are the same when they stand for the same move.
    fn eq(&self, other: &Self) -> (r: bool) {
        str_eq(self.joice, other.joice)
    }
}

impl PartialEqSpecImpl for Node {
    open spec fn obeys_eq_spec() -> bool {
        true
    }

    open spec fn eq_spec(&self, other: &Self) -> bool {
        self.joice@ == other.joice@
    }
}

/// The index of the first of `children` that stands for the move `name`.
pub open spec fn first_named(children: Seq<BuildNodeCount>, name: Seq<char>) -> Option<int>
    decreases children.len(),
{
    if children.len() == 0 {
        None
    } else if children[0].1.joice@ == name {
        Some(0)
    } else {
        match first_named(children.skip(1), name) {
            Some(i) => Some(i + 1),
            None => None,
        }
    }
}

/// `first_named` is the least index whose child carries the name, if any.
pub proof fn lemma_first_named(children: Seq<BuildNodeCount>, name: Seq<char>)
    ensures
        match first_named(children, name) {
            Some(i) => 0 <= i < children.len() && children[i].1.joice@ == name && forall|j: int|
                0 <= j < i ==> children[j].1.joice@ != name,
            None => forall|j: int| 0 <= j < children.len() ==> children[j].1.joice@ != name,
        },
    decreases children.len(),
{
    if children.len() != 0 && children[0].1.joice@ != name {
        let rest = children.skip(1);
        lemma_first_named(rest, name);
        match first_named(rest, name) {
            Some(i) => {
                assert forall|j: int| 0 <= j < i + 1 implies children[j].1.joice@ != name by {
                    if j > 0 {
                        assert(rest[j - 1] == children[j]);
                    }
                }
            },
            None => {
                assert forall|j: int| 0 <= j < children.len() implies children[j].1.joice@
                    != name by {
                    if j > 0 {
                        assert(rest[j - 1] == children[j]);
                    }
                }
            },
        }
    }
}

impl BuildNode {
    /// A node for the move `move_name` with no replies yet.
    pub fn new(move_name: String) -> (r: BuildNode)
        ensures
            r.joice == move_name,
            r.children@ == Seq::<BuildNodeCount>::empty(),
    {
        BuildNode { joice: move_name, children: Vec::new() }
    }

    /// Records one more game that answered with `child`, and hands out the
    /// reply's node: the one already stored for that move, with its count
    /// raised by one, or else `child` itself, appended with count one. The
    /// count that is raised must not be full.
    pub fn add_child(&mut self, child: BuildNode) -> (r: &mut BuildNode)
        requires
            first_named(old(self).children@, child.joice@) matches Some(i) ==> old(
                self,
            ).children@[i].0 < u16::MAX,
        ensures
            final(self).joice == old(self).joice,
            match first_named(old(self).children@, child.joice@) {
                Some(i) => *r == old(self).children@[i].1 && final(self).children@ == old(
                    self,
                ).children@.update(i, ((old(self).children@[i].0 + 1) as u16, *final(r))),
                None => *r == child && final(self).children@ == old(self).children@.push(
                    (1u16, *final(r)),
                ),
            },
    {
        proof {
            lemma_first_named(self.children@, child.joice@);
        }
        let n = self.children.len();
        let mut index: usize = 0;
        while index < n && !(self.children[index].1.joice == child.joice)
            invariant
                n == self.children@.len(),
                index <= n,
                forall|j: int| 0 <= j < index ==> self.children@[j].1.joice@ != child.joice@,
            decreases n - index,
        {
            index += 1;
        }
        if index < n {
            self.children[index].0 += 1;
        } else {
            self.children.push((1, child));
        }
        &mut self.children[index].1
    }
}

/// The games counted among the first `n` of `children`, taking only the
/// replies that were played at least twice.
pub open spec fn games_through(children: Seq<NodeCount>, n: int) -> int
    decreases n,
{
    if n <= 0 {
        0
    } else {
        games_through(children, n - 1) + if children[n - 1].0 >= 2 {
            children[n - 1].0 as int
        } else {
            0
        }
    }
}

/// Whether drawing `ticket` selects the child at `i`: it was played at least
/// twice, the games counted through it reach the ticket, and no earlier such
/// child does.
pub open spec fn ticket_selects(children: Seq<NodeCount>, ticket: int, i: int) -> bool {
    &&& 0 <= i < children.len()
    &&& children[i].0 >= 2
    &&& games_through(children, i + 1) >= ticket
    &&& forall|j: int|
        0 <= j < i && children[j].0 >= 2 ==> #[trigger] games_through(children, j + 1) < ticket
}

/// The order by which the book prefers a reply: by the number of games, and
/// among equals by the move's text.
pub open spec fn child_le(a: NodeCount, b: NodeCount) -> bool {
    a.0 < b.0 || (a.0 == b.0 && lex_le(a.1.joice.spec_bytes(), b.1.joice.spec_bytes()))
}

/// Whether `text` is the move of a reply that the book prefers to every
/// other.
pub open spec fn is_best_reply(children: Seq<NodeCount>, text: Seq<char>) -> bool {
    exists|i: int|
        0 <= i < children.len() && text == children[i].1.joice@ && forall|j: int|
            0 <= j < children.len() ==> child_le(children[j], children[i])
}

/// Draws a number below `n` from the thread's generator, `rand::Rng::gen_range`
/// over `0..n`: the result lies in that range, and nothing else is known of it.
#[verifier::external_body]
fn random_below(n: u64) -> (r: u64)
    requires
        n > 0,
    ensures
        r < n,
{
    rand::Rng::gen_range(&mut rand::thread_rng(), 0..n)
}

impl Node {
    /// The number of games behind the replies that were played at least twice.
    pub fn frequent_games(&self) -> (total: u64)
        requires
            self.children@.len() <= 0xffff_ffff_ffff,
        ensures
            total == games_through(self.children@, self.children@.len() as int),
    {
        let mut total: u64 = 0;
        let mut i: usize = 0;
        while i < self.children.len()
            invariant
                i <= self.children@.len() <= 0xffff_ffff_ffff,
                total == games_through(self.children@, i as int),
                total <= 0xffff * i,
            decreases self.children@.len() - i,
        {
            if self.children[i].0 >= 2 {
                total += self.children[i].0 as u64;
            }
            i += 1;
        }
        total
    }

    /// The reply that `ticket` selects: the first one played at least twice
    /// through which the counted games reach the ticket.
    pub fn ticket_index(&self, ticket: u64) -> (r: Option<usize>)
        requires
            self.children@.len() <= 0xffff_ffff_ffff,
        ensures
            match r {
                Some(i) => ticket_selects(self.children@, ticket as int, i as int),
                None => forall|i: int| !ticket_selects(self.children@, ticket as int, i),
            },
    {
        let mut seen: u64 = 0;
        let mut i: usize = 0;
        while i < self.children.len()
            invariant
                i <= self.children@.len() <= 0xffff_ffff_ffff,
                seen == games_through(self.children@, i as int),
                seen <= 0xffff * i,
                forall|j: int|
                    0 <= j < i && self.children@[j].0 >= 2 ==> #[trigger] games_through(
                        self.children@,
                        j + 1,
                    ) < ticket,
            decreases self.children@.len() - i,
        {
            if self.children[i].0 >= 2 {
                seen += self.children[i].0 as u64;
                if seen >= ticket {
                    return Some(i);
                }
            }
            i += 1;
        }
        proof {
            assert forall|k: int| !ticket_selects(self.children@, ticket as int, k) by {
                if 0 <= k < self.children@.len() && self.children@[k].0 >= 2 {
                    assert(games_through(self.children@, k + 1) < ticket);
                }
            }
        }
        None
    }

    /// A reply drawn at random among those that were played at least twice,
    /// weighted by the number of games; none where no reply was.
    pub fn get_best_node(&self) -> (r: Option<&NodeCount>)
        requires
            self.children@.len() <= 0xffff_ffff_ffff,
        ensures
            r is Some <==> games_through(self.children@, self.children@.len() as int) > 0,
            r matches Some(c) ==> exists|ticket: int, i: int|
                0 <= ticket < games_through(self.children@, self.children@.len() as int)
                    && ticket_selects(self.children@, ticket, i) && *c == self.children@[i],
    {
        let total = self.frequent_games();
        if total == 0 {
            return None;
        }
        let ticket = random_below(total);
        match self.ticket_index(ticket) {
            Some(i) => {
                assert(ticket_selects(self.children@, ticket as int, i as int));
                Some(&self.children[i])
            },
            None => {
                proof {
                    lemma_ticket_is_drawn(self.children@, ticket as int);
                }
                None
            },
        }
    }

    /// The reply that most games played; among equals the one whose text
    /// comes last. None where the node has no reply.
    pub fn get_best_move(&self) -> (r: Option<String>)
        ensures
            self.children@.len() == 0 ==> r is None,
            self.children@.len() > 0 ==> r is Some && is_best_reply(self.children@, r->0@),
    {
        if self.children.len() == 0 {
            return None;
        }
        let mut best: usize = 0;
        let mut i: usize = 1;
        proof {
            lemma_lex_le_total(
                self.children@[0].1.joice.spec_bytes(),
                self.children@[0].1.joice.spec_bytes(),
            );
        }
        while i < self.children.len()
            invariant
                1 <= i <= self.children@.len(),
                best < i,
                forall|j: int| 0 <= j < i ==> child_le(self.children@[j], self.children@[best as int]),
            decreases self.children@.len() - i,
        {
            let a = &self.children[i];
            let b = &self.children[best];
            let keeps = a.0 < b.0 || (a.0 == b.0 && !bytes_le(
                b.1.joice.as_bytes(),
                a.1.joice.as_bytes(),
            ));
            if !keeps {
                proof {
                    let new = self.children@[i as int];
                    let old_best = self.children@[best as int];
                    lemma_lex_le_total(new.1.joice.spec_bytes(), new.1.joice.spec_bytes());
                    assert(child_le(old_best, new));
                    assert forall|j: int| 0 <= j < i + 1 implies child_le(
                        self.children@[j],
                        new,
                    ) by {
                        if j < i {
                            let c = self.children@[j];
                            if c.0 == old_best.0 && old_best.0 == new.0 {
                                lemma_lex_le_transitive(
                                    c.1.joice.spec_bytes(),
                                    old_best.1.joice.spec_bytes(),
                                    new.1.joice.spec_bytes(),
                                );
                            }
                        }
                    }
                }
                best = i;
            } else {
                proof {
                    lemma_lex_le_total(
                        self.children@[i as int].1.joice.spec_bytes(),
                        self.children@[best as int].1.joice.spec_bytes(),
                    );
                }
            }
            i += 1;
        }
        Some(self.children[best].1.joice.to_owned())
    }

    /// The node of the first reply that is the move `joice`.
    pub fn get_node_by_move(&self, joice: String) -> (r: Option<Node>)
        ensures
            match r {
                Some(node) => exists|i: int|
                    0 <= i < self.children@.len() && node == self.children@[i].1
                        && self.children@[i].1.joice@ == joice@ && forall|j: int|
                        0 <= j < i ==> self.children@[j].1.joice@ != joice@,
                None => forall|i: int|
                    0 <= i < self.children@.len() ==> self.children@[i].1.joice@ != joice@,
            },
    {
        let mut i: usize = 0;
        while i < self.children.len()
            invariant
                i <= self.children@.len(),
                forall|j: int| 0 <= j < i ==> self.children@[j].1.joice@ != joice@,
            decreases self.children@.len() - i,
        {
            if str_eq(self.children[i].1.joice, joice.as_str()) {
                return Some(self.children[i].1);
            }
            i += 1;
        }
        None
    }
}

/// Every ticket below the number of counted games selects some reply.
pub proof fn lemma_ticket_is_drawn(children: Seq<NodeCount>, ticket: int)
    requires
        0 <= ticket < games_through(children, children.len() as int),
    ensures
        exists|i: int| ticket_selects(children, ticket, i),
{
    let k = lemma_last_frequent(children, children.len() as int);
    lemma_first_reaching(children, ticket, k);
}

/// Where games were counted among the first `n` children, the last child
/// counted among them closes the count.
proof fn lemma_last_frequent(children: Seq<NodeCount>, n: int) -> (k: int)
    requires
        0 <= n <= children.len(),
        games_through(children, n) > 0,
    ensures
        0 <= k < n,
        children[k].0 >= 2,
        games_through(children, k + 1) == games_through(children, n),
    decreases n,
{
    if children[n - 1].0 >= 2 {
        n - 1
    } else {
        lemma_last_frequent(children, n - 1)
    }
}

/// Below a counted child that reaches the ticket, some child is selected.
proof fn lemma_first_reaching(children: Seq<NodeCount>, ticket: int, k: int)
    requires
        0 <= k < children.len(),
        children[k].0 >= 2,
        games_through(children, k + 1) >= ticket,
    ensures
        exists|i: int| ticket_selects(children, ticket, i),
    decreases k,
{
    if exists|j: int|
        0 <= j < k && children[j].0 >= 2 && games_through(children, j + 1) >= ticket {
        let j = choose|j: int|
            0 <= j < k && children[j].0 >= 2 && games_through(children, j + 1) >= ticket;
        lemma_first_reaching(children, ticket, j);
    } else {
        assert(ticket_selects(children, ticket, k));
    }
}

/// Whether the byte `c` stands in a text.
pub open spec fn holds_byte(text: Seq<u8>, c: u8) -> bool {
    exists|i: int| 0 <= i < text.len() && text[i] == c
}

/// Whether a text holds `O-O`, the mark of castling.
pub open spec fn holds_castling(text: Seq<u8>) -> bool {
    exists|i: int|
        0 <= i && i + 2 < text.len() && text[i] == 79 && #[trigger] text[i + 1] == 45 && text[i
            + 2] == 79
}

/// Whether a line of a file of games gives a game for the book: it starts
/// with the first move number, `1.`, and holds no comment, which a brace
/// opens.
pub open spec fn is_game_line_spec(line: Seq<u8>) -> bool {
    line.len() >= 2 && line[0] == 49 && line[1] == 46 && !holds_byte(line, 123)
}

/// Whether a word of a game's line is a move: every word is but one
/// with a hyphen that is no castling, which is the game's result.
pub open spec fn is_move_token_spec(token: Seq<u8>) -> bool {
    !holds_byte(token, 45) || holds_castling(token)
}

/// Whether the byte `c` stands in a text.
pub fn contains_byte(text: &[u8], c: u8) -> (r: bool)
    ensures
        r == holds_byte(text@, c),
{
    let mut i: usize = 0;
    while i < text.len()
        invariant
            i <= text@.len(),
            forall|j: int| 0 <= j < i ==> text@[j] != c,
        decreases text@.len() - i,
    {
        if text[i] == c {
            return true;
        }
        i += 1;
    }
    false
}

/// Whether a text holds the mark of castling.
pub fn contains_castling(text: &[u8]) -> (r: bool)
    ensures
        r == holds_castling(text@),
{
    let mut i: usize = 0;
    while i < text.len() && text.len() - i > 2
        invariant
            i <= text@.len(),
            forall|j: int|
                0 <= j < i && j + 2 < text@.len() ==> !(text@[j] == 79 && #[trigger] text@[j + 1]
                    == 45 && text@[j + 2] == 79),
        decreases text@.len() - i,
    {
        if text[i] == 79 && text[i + 1] == 45 && text[i + 2] == 79 {
            return true;
        }
        i += 1;
    }
    false
}

/// Whether a line of a file of games gives a game for the book.
pub fn is_game_line(line: &str) -> (r: bool)
    ensures
        r == is_game_line_spec(line.spec_bytes()),
{
    let t = line.as_bytes();
    t.len() >= 2 && t[0] == 49 && t[1] == 46 && !contains_byte(t, 123)
}

/// Whether a word of a game's line is a move and not the game's result.
pub fn is_move_token(token: &str) -> (r: bool)
    ensures
        r == is_move_token_spec(token.spec_bytes()),
{
    let t = token.as_bytes();
    !contains_byte(t, 45) || contains_castling(t)
}

} // verus!
