//! The class of a tracked object: the label that most of its latest
//! classifications gave it.

use vstd::prelude::*;

verus! {

/// How many of the latest classifications of an object decide its class.
pub const CLASS_WINDOW: usize = 5;

/// The latest classifications of one object, oldest first.
#[derive(Debug)]
pub struct ClassVotes {
    pub recent: Vec<String>,
}

pub open spec fn votes_view(votes: Seq<String>) -> Seq<Seq<char>> {
    Seq::new(votes.len(), |i: int| votes[i]@)
}

impl View for ClassVotes {
    type V = Seq<Seq<char>>;

    open spec fn view(&self) -> Seq<Seq<char>> {
        votes_view(self.recent@)
    }
}

/// How many of the first `k` votes went to the label.
pub open spec fn votes_for(votes: Seq<Seq<char>>, label: Seq<char>, k: int) -> nat
    decreases k,
{
    if k <= 0 {
        0
    } else {
        votes_for(votes, label, k - 1) + if votes[k - 1] == label {
            1nat
        } else {
            0nat
        }
    }
}

/// How many of the votes went to the same label as vote `i`.
pub open spec fn support(votes: Seq<Seq<char>>, i: int) -> nat {
    votes_for(votes, votes[i], votes.len() as int)
}

/// Vote `i` names the winner: no label has more votes than its label, and
/// every label voted for before it has fewer.
pub open spec fn wins(votes: Seq<Seq<char>>, i: int) -> bool {
    &&& 0 <= i < votes.len()
    &&& forall|j: int| 0 <= j < votes.len() ==> #[trigger] support(votes, j) <= support(votes, i)
    &&& forall|j: int| 0 <= j < i ==> #[trigger] support(votes, j) < support(votes, i)
}

/// The votes after one more: the window keeps the latest votes only, so the
/// oldest ones make room.
pub open spec fn noted(votes: Seq<Seq<char>>, label: Seq<char>) -> Seq<Seq<char>> {
    if votes.len() < CLASS_WINDOW {
        votes.push(label)
    } else {
        votes.skip(votes.len() - CLASS_WINDOW + 1).push(label)
    }
}

/// Only one vote can name the winner.
pub proof fn lemma_winner_is_unique(votes: Seq<Seq<char>>, i: int, j: int)
    requires
        wins(votes, i),
        wins(votes, j),
    ensures
        i == j,
{
    if i < j {
        assert(support(votes, i) < support(votes, j));
        assert(support(votes, j) <= support(votes, i));
    } else if j < i {
        assert(support(votes, j) < support(votes, i));
        assert(support(votes, i) <= support(votes, j));
    }
}

impl ClassVotes {
    /// No vote yet.
    pub fn new() -> (votes: ClassVotes)
        ensures
            votes@.len() == 0,
    {
        let votes = ClassVotes { recent: Vec::new() };
        assert(votes@ =~= Seq::empty());
        votes
    }

    /// Takes one more classification of the object.
    pub fn note(&mut self, label: String)
        ensures
            final(self)@ == noted(old(self)@, label@),
    {
        let ghost before = self@;
        let n = self.recent.len();
        if n < CLASS_WINDOW {
            self.recent.push(label);
            assert(self@ =~= noted(before, label@));
        } else {
            let drop = n - CLASS_WINDOW + 1;
            let mut kept: Vec<String> = Vec::new();
            let mut i: usize = drop;
            while i < n
                invariant
                    drop <= i <= n,
                    n == self.recent.len(),
                    before == votes_view(self.recent@),
                    kept@.len() == i - drop,
                    forall|j: int| 0 <= j < i - drop ==> (#[trigger] kept@[j])@ == before[drop + j],
                decreases n - i,
            {
                kept.push(self.recent[i].clone());
                i += 1;
            }
            kept.push(label);
            self.recent = kept;
            assert(self@ =~= noted(before, label@));
        }
    }

    /// How many votes went to the label.
    pub fn count(&self, label: &String) -> (votes: usize)
        ensures
            votes == votes_for(self@, label@, self@.len() as int),
    {
        let n = self.recent.len();
        let ghost views = self@;
        let mut votes: usize = 0;
        let mut i: usize = 0;
        while i < n
            invariant
                0 <= i <= n,
                n == self.recent.len(),
                views == votes_view(self.recent@),
                votes == votes_for(views, label@, i as int),
                votes <= i,
            decreases n - i,
        {
            if self.recent[i] == *label {
                votes += 1;
            }
            i += 1;
        }
        votes
    }

    /// The class of the object: the label with the most votes, and the one
    /// that was voted for first where several have the most. Without a vote
    /// the class is the empty label.
    pub fn get_classname(&self) -> (classname: String)
        ensures
            self@.len() == 0 ==> classname@.len() == 0,
            self@.len() > 0 ==> exists|i: int| wins(self@, i) && self@[i] == classname@,
    {
        let n = self.recent.len();
        if n == 0 {
            return String::new();
        }
        let ghost views = self@;
        let mut best: usize = 0;
        let mut most: usize = self.count(&self.recent[0]);
        let mut i: usize = 1;
        while i < n
            invariant
                1 <= i <= n,
                n == self.recent.len(),
                views == votes_view(self.recent@),
                views == self@,
                0 <= best < i,
                most == support(views, best as int),
                forall|j: int| 0 <= j < i ==> #[trigger] support(views, j) <= most,
                forall|j: int| 0 <= j < best ==> #[trigger] support(views, j) < most,
            decreases n - i,
        {
            let votes = self.count(&self.recent[i]);
            assert(votes == support(views, i as int));
            if votes > most {
                best = i;
                most = votes;
            }
            i += 1;
        }
        assert(wins(views, best as int));
        self.recent[best].clone()
    }
}

} // verus!
