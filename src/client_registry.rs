//! The clients in the chat: a writer handle for each nickname.
use vstd::prelude::*;
use crate::handler::lines_view;
use crate::keyed::{last_wins, unique_keys, lemma_last_wins_has, lemma_last_wins_value, lemma_last_wins_remove};
use crate::text::str_eq;

verus! {

pub open spec fn client_pairs<W>(clients: Seq<(String, W)>) -> Seq<(Seq<char>, W)> {
    clients.map_values(|c: (String, W)| (c.0@, c.1))
}

/// Writer handles by nickname; each nickname is held once.
pub struct ClientRegistry<W> {
    clients: Vec<(String, W)>,
}

impl<W> View for ClientRegistry<W> {
    type V = Map<Seq<char>, W>;

    closed spec fn view(&self) -> Map<Seq<char>, W> {
        last_wins(client_pairs(self.clients@))
    }
}

impl<W> ClientRegistry<W> {
    /// Each nickname is held once.
    pub closed spec fn wf(&self) -> bool {
        unique_keys(client_pairs(self.clients@))
    }

    pub fn new() -> (r: Self)
        ensures
            r@ == Map::<Seq<char>, W>::empty(),
            r.wf(),
    {
        let r = Self { clients: Vec::new() };
        assert(client_pairs(r.clients@) =~= Seq::empty());
        r
    }

    /// Where `nickname` stands in the list.
    fn position(&self, nickname: &str) -> (r: Option<usize>)
        requires
            self.wf(),
        ensures
            match r {
                Some(i) => i < self.clients@.len() && client_pairs(self.clients@)[i as int].0 == nickname@
                    && self@.contains_key(nickname@) && self@[nickname@] == self.clients@[i as int].1,
                None => !self@.contains_key(nickname@),
            },
    {
        let ghost pairs = client_pairs(self.clients@);
        let mut i: usize = 0;
        while i < self.clients.len()
            invariant
                i <= self.clients@.len(),
                pairs == client_pairs(self.clients@),
                unique_keys(pairs),
                forall|j: int| 0 <= j < i ==> (#[trigger] pairs[j]).0 != nickname@,
            decreases self.clients@.len() - i,
        {
            if str_eq(self.clients[i].0.as_str(), nickname) {
                proof {
                    assert forall|j: int| i < j < pairs.len() implies (#[trigger] pairs[j]).0 != pairs[i as int].0 by {
                        assert(pairs[j].0 != pairs[i as int].0);
                    }
                    lemma_last_wins_value(pairs, i as int);
                }
                return Some(i);
            }
            i = i + 1;
        }
        proof {
            lemma_last_wins_has(pairs, nickname@);
        }
        None
    }

    pub fn contains(&self, nickname: &str) -> (r: bool)
        requires
            self.wf(),
        ensures
            r == self@.contains_key(nickname@),
    {
        self.position(nickname).is_some()
    }

    /// The writer of `nickname`, if it is in the chat.
    pub fn get(&self, nickname: &str) -> (r: Option<&W>)
        requires
            self.wf(),
        ensures
            match r {
                Some(w) => self@.contains_key(nickname@) && *w == self@[nickname@],
                None => !self@.contains_key(nickname@),
            },
    {
        match self.position(nickname) {
            Some(i) => Some(&self.clients[i].1),
            None => None,
        }
    }

    /// Takes `nickname` out of the chat, returning its writer.
    pub fn remove(&mut self, nickname: &str) -> (r: Option<W>)
        requires
            old(self).wf(),
        ensures
            final(self).wf(),
            final(self)@ == old(self)@.remove(nickname@),
            match r {
                Some(w) => old(self)@.contains_key(nickname@) && w == old(self)@[nickname@],
                None => !old(self)@.contains_key(nickname@),
            },
    {
        match self.position(nickname) {
            Some(i) => {
                let ghost before = self.clients@;
                let entry = self.clients.remove(i);
                proof {
                    lemma_last_wins_remove(client_pairs(before), i as int);
                    assert(client_pairs(self.clients@) =~= client_pairs(before).remove(i as int));
                }
                Some(entry.1)
            },
            None => {
                assert(old(self)@.remove(nickname@) =~= old(self)@);
                None
            },
        }
    }

    /// Puts `nickname` in the chat with `writer`, in place of any writer it had.
    pub fn insert(&mut self, nickname: String, writer: W)
        requires
            old(self).wf(),
        ensures
            final(self).wf(),
            final(self)@ == old(self)@.insert(nickname@, writer),
    {
        let _ = self.remove(nickname.as_str());
        let ghost before = self.clients@;
        let ghost k = nickname@;
        proof {
            lemma_last_wins_has(client_pairs(before), k);
        }
        self.clients.push((nickname, writer));
        proof {
            let p = client_pairs(self.clients@);
            assert(p.drop_last() =~= client_pairs(before));
            assert(p.last() == (k, writer));
            assert forall|a: int, b: int| 0 <= a < p.len() && 0 <= b < p.len() && a != b implies (#[trigger] p[a]).0 != (#[trigger] p[b]).0 by {
                if a < p.len() - 1 && b < p.len() - 1 {
                    assert(p[a] == client_pairs(before)[a] && p[b] == client_pairs(before)[b]);
                } else if a < p.len() - 1 {
                    assert(p[a] == client_pairs(before)[a]);
                } else {
                    assert(p[b] == client_pairs(before)[b]);
                }
            }
            assert(old(self)@.remove(k).insert(k, writer) =~= old(self)@.insert(k, writer));
        }
    }

    /// The nicknames a message from `sender` goes to: everyone in the chat but `sender`, each
    /// once.
    pub fn recipients(&self, sender: &str) -> (r: Vec<String>)
        requires
            self.wf(),
        ensures
            lines_view(r@).no_duplicates(),
            lines_view(r@).to_set() == self@.dom().remove(sender@),
    {
        let ghost pairs = client_pairs(self.clients@);
        let mut r: Vec<String> = Vec::new();
        let mut i: usize = 0;
        while i < self.clients.len()
            invariant
                i <= self.clients@.len(),
                pairs == client_pairs(self.clients@),
                unique_keys(pairs),
                lines_view(r@).no_duplicates(),
                forall|k: Seq<char>| lines_view(r@).contains(k) <==> (k != sender@ && exists|j: int| 0 <= j < i && (#[trigger] pairs[j]).0 == k),
            decreases self.clients@.len() - i,
        {
            let ghost old_r = lines_view(r@);
            let ghost key = pairs[i as int].0;
            if !str_eq(self.clients[i].0.as_str(), sender) {
                let name = self.clients[i].0.clone();
                r.push(name);
                proof {
                    assert(lines_view(r@) =~= old_r.push(key));
                    assert(!old_r.contains(key)) by {
                        if old_r.contains(key) {
                            let j = choose|j: int| 0 <= j < i && (#[trigger] pairs[j]).0 == key;
                        }
                    }
                }
            }
            proof {
                assert(lines_view(r@) == if key != sender@ { old_r.push(key) } else { old_r });
                assert forall|k: Seq<char>| lines_view(r@).contains(k) implies (k != sender@ && exists|j: int| 0 <= j < i + 1 && (#[trigger] pairs[j]).0 == k) by {
                    if old_r.contains(k) {
                        let j = choose|j: int| 0 <= j < i && (#[trigger] pairs[j]).0 == k;
                        assert(pairs[j].0 == k);
                    } else {
                        assert(k == key);
                        assert(pairs[i as int].0 == k);
                    }
                }
                assert forall|k: Seq<char>| (k != sender@ && exists|j: int| 0 <= j < i + 1 && (#[trigger] pairs[j]).0 == k) implies lines_view(r@).contains(k) by {
                    let j = choose|j: int| 0 <= j < i + 1 && (#[trigger] pairs[j]).0 == k;
                    if j == i {
                        assert(lines_view(r@)[lines_view(r@).len() - 1] == k);
                    } else {
                        assert(pairs[j].0 == k);
                        assert(old_r.contains(k));
                        let idx = choose|idx: int| 0 <= idx < old_r.len() && old_r[idx] == k;
                        assert(lines_view(r@)[idx] == k);
                    }
                }
            }
            i = i + 1;
        }
        proof {
            assert forall|k: Seq<char>| #[trigger] lines_view(r@).to_set().contains(k) <==> self@.dom().remove(sender@).contains(k) by {
                lemma_last_wins_has(pairs, k);
            }
            assert(lines_view(r@).to_set() =~= self@.dom().remove(sender@));
        }
        r
    }
}

} // verus!
