//! Files held in memory, looked up by name.
use vstd::prelude::*;
use crate::text::str_eq;
use crate::keyed::{last_wins, lemma_last_wins_has, lemma_last_wins_value};

verus! {

pub struct StoredFile {
    pub name: String,
    pub content: Vec<u8>,
}

pub open spec fn file_pairs(files: Seq<StoredFile>) -> Seq<(Seq<char>, Seq<u8>)> {
    files.map_values(|f: StoredFile| (f.name@, f.content@))
}

/// Contents by file name. A name stored twice keeps the later contents.
pub struct FileStorage {
    files: Vec<StoredFile>,
}

impl View for FileStorage {
    type V = Map<Seq<char>, Seq<u8>>;

    closed spec fn view(&self) -> Map<Seq<char>, Seq<u8>> {
        last_wins(file_pairs(self.files@))
    }
}

impl FileStorage {
    pub fn empty() -> (s: Self)
        ensures
            s@ == Map::<Seq<char>, Seq<u8>>::empty(),
    {
        let s = Self { files: Vec::new() };
        assert(file_pairs(s.files@) =~= Seq::empty());
        s
    }

    /// Stores `content` under `name`, in place of what was there.
    pub fn insert(&mut self, name: String, content: Vec<u8>)
        ensures
            final(self)@ == old(self)@.insert(name@, content@),
    {
        let ghost before = self.files@;
        self.files.push(StoredFile { name, content });
        assert(file_pairs(self.files@).drop_last() =~= file_pairs(before));
    }

    /// The contents stored under `file`, if any.
    pub fn get(&self, file: &str) -> (r: Option<&Vec<u8>>)
        ensures
            match r {
                Some(c) => self@.contains_key(file@) && c@ == self@[file@],
                None => !self@.contains_key(file@),
            },
    {
        let ghost pairs = file_pairs(self.files@);
        let mut i: usize = self.files.len();
        while i > 0
            invariant
                i <= self.files@.len(),
                pairs == file_pairs(self.files@),
                forall|j: int| i <= j < self.files@.len() ==> (#[trigger] pairs[j]).0 != file@,
            decreases i,
        {
            i = i - 1;
            if str_eq(self.files[i].name.as_str(), file) {
                proof {
                    lemma_last_wins_value(pairs, i as int);
                }
                return Some(&self.files[i].content);
            }
        }
        proof {
            lemma_last_wins_has(pairs, file@);
        }
        None
    }
}

} // verus!
