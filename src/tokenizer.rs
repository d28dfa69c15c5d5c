//! Word tokenizer: whitespace-separated words hashed into a fixed vocabulary.
use vstd::prelude::*;
use crate::text::{chars_of, is_white_space, white_space};

verus! {

/// Size of the vocabulary; word ids lie strictly between 0 and `VOCAB_SIZE - 1`.
pub const VOCAB_SIZE: u32 = 49408;

/// Length of every token sequence.
pub const MAX_LENGTH: usize = 77;

/// Id that opens every token sequence.
pub const START_TOKEN: u32 = 49406;

/// Id that follows the last word.
pub const END_TOKEN: u32 = 49407;

/// Id that fills the sequence up to `MAX_LENGTH`.
pub const PAD_TOKEN: u32 = 0;

/// Number of words that fit between the start and the end id.
pub const MAX_WORDS: usize = 75;

/// Sum of the character codes of a word.
pub open spec fn code_sum(w: Seq<char>) -> int
    decreases w.len(),
{
    if w.len() == 0 {
        0
    } else {
        code_sum(w.drop_last()) + (w.last() as u32) as int
    }
}

/// Id of a word: its character-code sum modulo `VOCAB_SIZE - 2`, plus one.
pub open spec fn word_id(w: Seq<char>) -> u32 {
    (code_sum(w) % (VOCAB_SIZE - 2) as int + 1) as u32
}

/// Words found in the first `i` characters of `s`: the completed words and
/// the word still being read.
pub open spec fn scan(s: Seq<char>, i: int) -> (Seq<Seq<char>>, Seq<char>)
    decreases i,
{
    if i <= 0 {
        (Seq::empty(), Seq::empty())
    } else {
        let (ws, cur) = scan(s, i - 1);
        let c = s[i - 1];
        if white_space(c) {
            if cur.len() > 0 {
                (ws.push(cur), Seq::empty())
            } else {
                (ws, Seq::empty())
            }
        } else {
            (ws, cur.push(c))
        }
    }
}

/// The maximal runs of non-whitespace characters of `s`, in order.
pub open spec fn words(s: Seq<char>) -> Seq<Seq<char>> {
    let (ws, cur) = scan(s, s.len() as int);
    if cur.len() > 0 {
        ws.push(cur)
    } else {
        ws
    }
}

/// Ids of the words, at most `MAX_WORDS` of them.
pub open spec fn word_ids(ws: Seq<Seq<char>>) -> Seq<u32> {
    ws.map_values(|w: Seq<char>| word_id(w)).take(
        if ws.len() <= MAX_WORDS { ws.len() as int } else { MAX_WORDS as int },
    )
}

/// Token sequence of a text: the start id, the ids of its first words, the
/// end id, then padding up to `MAX_LENGTH`.
pub open spec fn tokens_of(s: Seq<char>) -> Seq<u32> {
    let body = seq![START_TOKEN] + word_ids(words(s)) + seq![END_TOKEN];
    body + Seq::new((MAX_LENGTH - body.len()) as nat, |i: int| PAD_TOKEN)
}

/// Every text, whatever its length or characters, tokenizes to exactly
/// `MAX_LENGTH` ids.
pub proof fn lemma_tokens_length(s: Seq<char>)
    ensures
        tokens_of(s).len() == MAX_LENGTH,
{
}

/// Maps text to a fixed-length sequence of token ids.
#[derive(Clone, Copy)]
pub struct SimpleTokenizer {
    vocab_size: usize,
    max_length: usize,
}

impl SimpleTokenizer {
    /// The tokenizer's configuration is fixed.
    pub closed spec fn wf(&self) -> bool {
        self.vocab_size == VOCAB_SIZE as usize && self.max_length == MAX_LENGTH
    }

    pub fn new() -> (r: Self)
        ensures
            r.wf(),
    {
        SimpleTokenizer { vocab_size: VOCAB_SIZE as usize, max_length: MAX_LENGTH }
    }

    /// Tokenizes `text`; the result always has `MAX_LENGTH` ids.
    pub fn encode(&self, text: &str) -> (r: Vec<u32>)
        requires
            self.wf(),
        ensures
            r@ == tokens_of(text@),
            r@.len() == MAX_LENGTH,
    {
        let cs = chars_of(text);
        let m: u32 = VOCAB_SIZE - 2;
        let mut ids: Vec<u32> = Vec::new();
        let mut all: Ghost<Seq<u32>> = Ghost(Seq::empty());
        let mut cur_hash: u32 = 0;
        let mut in_word: bool = false;
        let mut i: usize = 0;
        proof {
            assert(scan(text@, 0).0.map_values(|w: Seq<char>| word_id(w)) =~= all@);
        }
        while i < cs.len()
            invariant
                cs@ == text@,
                m == VOCAB_SIZE - 2,
                0 <= i <= cs.len(),
                all@ == scan(text@, i as int).0.map_values(|w: Seq<char>| word_id(w)),
                ids@ == all@.take(if all@.len() <= MAX_WORDS { all@.len() as int } else { MAX_WORDS as int }),
                in_word == (scan(text@, i as int).1.len() > 0),
                cur_hash as int == code_sum(scan(text@, i as int).1) % (m as int),
            decreases cs.len() - i,
        {
            let c = cs[i];
            proof {
                reveal_with_fuel(scan, 1);
            }
            if is_white_space(c) {
                if in_word {
                    let id = cur_hash + 1;
                    proof {
                        let cur = scan(text@, i as int).1;
                        assert(id == word_id(cur));
                    }
                    if ids.len() < MAX_WORDS {
                        ids.push(id);
                    }
                    proof {
                        let ws = scan(text@, i as int).0;
                        let cur = scan(text@, i as int).1;
                        assert(ws.push(cur).map_values(|w: Seq<char>| word_id(w))
                            =~= all@.push(id));
                        all@ = all@.push(id);
                    }
                }
                cur_hash = 0;
                in_word = false;
            } else {
                let code = c as u32;
                proof {
                    let cur = scan(text@, i as int).1;
                    assert(cur.push(c).drop_last() =~= cur);
                    vstd::arithmetic::div_mod::lemma_add_mod_noop(
                        code_sum(cur),
                        code as int,
                        m as int,
                    );
                    vstd::arithmetic::div_mod::lemma_mod_twice(code as int, m as int);
                    vstd::arithmetic::div_mod::lemma_small_mod(cur_hash as nat, m as nat);
                }
                cur_hash = (cur_hash + code % m) % m;
                in_word = true;
            }
            proof {
                assert(ids@ =~= all@.take(if all@.len() <= MAX_WORDS { all@.len() as int } else { MAX_WORDS as int }));
            }
            i = i + 1;
        }
        if in_word {
            let id = cur_hash + 1;
            if ids.len() < MAX_WORDS {
                ids.push(id);
            }
            proof {
                let ws = scan(text@, i as int).0;
                let cur = scan(text@, i as int).1;
                assert(ws.push(cur).map_values(|w: Seq<char>| word_id(w)) =~= all@.push(id));
                all@ = all@.push(id);
            }
        }
        proof {
            assert(i == text@.len());
            assert(all@ == words(text@).map_values(|w: Seq<char>| word_id(w)));
            assert(ids@ =~= word_ids(words(text@)));
        }
        let mut tokens: Vec<u32> = Vec::new();
        tokens.push(START_TOKEN);
        let mut j: usize = 0;
        while j < ids.len()
            invariant
                ids@.len() <= MAX_WORDS,
                0 <= j <= ids.len(),
                tokens@ =~= seq![START_TOKEN] + ids@.take(j as int),
            decreases ids.len() - j,
        {
            tokens.push(ids[j]);
            proof {
                assert(ids@.take(j as int + 1) =~= ids@.take(j as int).push(ids@[j as int]));
            }
            j = j + 1;
        }
        tokens.push(END_TOKEN);
        let ghost body = tokens@;
        proof {
            assert(ids@.take(j as int) =~= ids@);
            assert(body =~= seq![START_TOKEN] + word_ids(words(text@)) + seq![END_TOKEN]);
        }
        while tokens.len() < MAX_LENGTH
            invariant
                body.len() <= tokens@.len() <= MAX_LENGTH,
                tokens@ =~= body + Seq::new((tokens@.len() - body.len()) as nat, |k: int| PAD_TOKEN),
            decreases MAX_LENGTH - tokens.len(),
        {
            tokens.push(PAD_TOKEN);
        }
        tokens
    }
}

} // verus!
