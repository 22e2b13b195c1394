//! Reserved words.

use vstd::prelude::*;

verus! {

/// The reserved words of the language.
#[derive(Clone, Copy, PartialEq, Eq, Structural, Debug)]
pub enum Keyword {
    Let,
}

impl Keyword {
    /// The keyword as it is written in source text.
    pub open spec fn word(self) -> Seq<char> {
        match self {
            Keyword::Let => seq!['l', 'e', 't'],
        }
    }

    /// The keyword that `text` spells, if it spells one.
    pub open spec fn spelled(text: Seq<char>) -> Option<Keyword> {
        if text == Keyword::Let.word() {
            Some(Keyword::Let)
        } else {
            None
        }
    }

    /// Every keyword, once.
    pub fn keywords() -> (all: Vec<Keyword>)
        ensures
            all@ == seq![Keyword::Let],
    {
        let mut all = Vec::new();
        all.push(Keyword::Let);
        assert(all@ =~= seq![Keyword::Let]);
        all
    }

    /// Every keyword beside the word that spells it.
    pub fn hash_map() -> (map: Vec<(String, Keyword)>)
        ensures
            map@.len() == 1,
            map@[0].0@ == Keyword::Let.word(),
            map@[0].1 == Keyword::Let,
    {
        let mut map: Vec<(String, Keyword)> = Vec::new();
        let keywords = Self::keywords();
        let mut i: usize = 0;
        while i < keywords.len()
            invariant
                i <= keywords.len(),
                keywords@ == seq![Keyword::Let],
                map@.len() == i,
                forall|j: int| 0 <= j < i ==> (#[trigger] map@[j]).0@ == keywords@[j].word(),
                forall|j: int| 0 <= j < i ==> (#[trigger] map@[j]).1 == keywords@[j],
            decreases keywords.len() - i,
        {
            let keyword = keywords[i];
            map.push((keyword.to_string(), keyword));
            i += 1;
        }
        map
    }

    /// The keyword that `text` spells, if it spells one.
    pub fn lookup(text: &String) -> (r: Option<Keyword>)
        ensures
            r == Keyword::spelled(text@),
    {
        let map = Self::hash_map();
        let mut i: usize = 0;
        while i < map.len()
            invariant
                i <= map.len(),
                map@.len() == 1,
                map@[0].0@ == Keyword::Let.word(),
                map@[0].1 == Keyword::Let,
                i == 0 || map@[0].0@ != text@,
            decreases map.len() - i,
        {
            if map[i].0 == *text {
                return Some(map[i].1);
            }
            i += 1;
        }
        None
    }

    /// The keyword as it is written in source text.
    pub fn to_string(&self) -> (s: String)
        ensures
            s@ == self.word(),
    {
        match self {
            Keyword::Let => {
                proof {
                    reveal_strlit("let");
                }
                let s = String::from_str("let");
                assert(s@ =~= self.word());
                s
            },
        }
    }
}

} // verus!
