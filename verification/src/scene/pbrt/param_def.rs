//! Parameter declarations such as `"float fov"`: a type name and a parameter
//! name separated by whitespace.
use vstd::prelude::*;

verus! {

/// The length in bytes of the UTF-8 encoding of a Unicode `White_Space`
/// character that starts at byte `i` of `s`, or 0 when none starts there.
pub open spec fn whitespace_len(s: Seq<u8>, i: int) -> int {
    let b = s[i];
    if b == 9 || b == 10 || b == 11 || b == 12 || b == 13 || b == 32 {
        1
    } else if b == 0xC2 && i + 1 < s.len() && (s[i + 1] == 0x85 || s[i + 1] == 0xA0) {
        2
    } else if i + 2 < s.len() && ((b == 0xE1 && s[i + 1] == 0x9A && s[i + 2] == 0x80) || (b
        == 0xE2 && s[i + 1] == 0x80 && ((0x80 <= s[i + 2] && s[i + 2] <= 0x8A) || s[i + 2]
        == 0xA8 || s[i + 2] == 0xA9 || s[i + 2] == 0xAF)) || (b == 0xE2 && s[i + 1] == 0x81
        && s[i + 2] == 0x9F) || (b == 0xE3 && s[i + 1] == 0x80 && s[i + 2] == 0x80)) {
        3
    } else {
        0
    }
}

/// `words` with the word being built, `current`, closed off when it is not empty.
pub open spec fn close_word(current: Seq<u8>, words: Seq<Seq<u8>>) -> Seq<Seq<u8>> {
    if current.len() > 0 {
        words.push(current)
    } else {
        words
    }
}

/// The whitespace-separated words of `s[i..]`, after the words already found,
/// `words`, and the bytes of the word already begun, `current`.
pub open spec fn words_from(s: Seq<u8>, i: int, current: Seq<u8>, words: Seq<Seq<u8>>) -> Seq<
    Seq<u8>,
>
    decreases s.len() - i,
{
    if i >= s.len() {
        close_word(current, words)
    } else if whitespace_len(s, i) > 0 {
        words_from(s, i + whitespace_len(s, i), Seq::empty(), close_word(current, words))
    } else {
        words_from(s, i + 1, current.push(s[i]), words)
    }
}

/// The maximal runs of non-whitespace bytes of `s`, in order.
pub open spec fn whitespace_words(s: Seq<u8>) -> Seq<Seq<u8>> {
    words_from(s, 0, Seq::empty(), Seq::empty())
}

/// `w` is a word of visible ASCII characters.
pub open spec fn is_visible_ascii(w: Seq<u8>) -> bool {
    forall|k: int| 0 <= k < w.len() ==> 0x21 <= #[trigger] w[k] <= 0x7E
}

proof fn lemma_word_run(s: Seq<u8>, i: int, j: int, current: Seq<u8>, words: Seq<Seq<u8>>)
    requires
        0 <= i <= j <= s.len(),
        forall|k: int| i <= k < j ==> 0x21 <= #[trigger] s[k] <= 0x7E,
    ensures
        words_from(s, i, current, words) == words_from(s, j, current + s.subrange(i, j), words),
    decreases j - i,
{
    if i == j {
        assert(current + s.subrange(i, j) =~= current);
    } else {
        assert(whitespace_len(s, i) == 0);
        lemma_word_run(s, i + 1, j, current.push(s[i]), words);
        assert(current.push(s[i]) + s.subrange(i + 1, j) =~= current + s.subrange(i, j));
    }
}

/// A declaration written as a type name, one space and a parameter name
/// splits into that type name and that parameter name.
pub proof fn lemma_split_joined(kind: Seq<u8>, name: Seq<u8>)
    requires
        kind.len() > 0,
        name.len() > 0,
        is_visible_ascii(kind),
        is_visible_ascii(name),
    ensures
        whitespace_words(kind + seq![32u8] + name) == seq![kind, name],
{
    let s = kind + seq![32u8] + name;
    let n = kind.len() as int;
    assert forall|k: int| 0 <= k < n implies 0x21 <= #[trigger] s[k] <= 0x7E by {
        assert(s[k] == kind[k]);
    }
    lemma_word_run(s, 0, n, Seq::empty(), Seq::empty());
    assert(Seq::<u8>::empty() + s.subrange(0, n) =~= kind);
    assert(s[n] == 32u8);
    assert(whitespace_len(s, n) == 1);
    assert forall|k: int| n + 1 <= k < s.len() implies 0x21 <= #[trigger] s[k] <= 0x7E by {
        assert(s[k] == name[k - n - 1]);
    }
    lemma_word_run(s, n + 1, s.len() as int, Seq::empty(), seq![kind]);
    assert(Seq::<u8>::empty() + s.subrange(n + 1, s.len() as int) =~= name);
    assert(seq![kind].push(name) =~= seq![kind, name]);
}

fn whitespace_at(s: &[u8], i: usize) -> (r: usize)
    requires
        i < s@.len(),
    ensures
        r == whitespace_len(s@, i as int),
{
    let n = s.len();
    let b = s[i];
    if b == 9 || b == 10 || b == 11 || b == 12 || b == 13 || b == 32 {
        return 1;
    }
    if b == 0xC2 && i + 1 < n && (s[i + 1] == 0x85 || s[i + 1] == 0xA0) {
        return 2;
    }
    if n - i > 2 {
        let c = s[i + 1];
        let d = s[i + 2];
        if (b == 0xE1 && c == 0x9A && d == 0x80) || (b == 0xE2 && c == 0x80 && ((0x80 <= d && d
            <= 0x8A) || d == 0xA8 || d == 0xA9 || d == 0xAF)) || (b == 0xE2 && c == 0x81 && d
            == 0x9F) || (b == 0xE3 && c == 0x80 && d == 0x80) {
            return 3;
        }
    }
    0
}

/// Splits a parameter declaration into its type name and its parameter name.
/// Returns `None` unless `def` holds exactly two whitespace-separated words.
pub fn try_split_param_def(def: &[u8]) -> (r: Option<(Vec<u8>, Vec<u8>)>)
    ensures
        match r {
            Some((kind, param_name)) => {
                &&& whitespace_words(def@).len() == 2
                &&& kind@ == whitespace_words(def@)[0]
                &&& param_name@ == whitespace_words(def@)[1]
            },
            None => whitespace_words(def@).len() != 2,
        },
{
    let mut words: Vec<Vec<u8>> = Vec::new();
    let mut current: Vec<u8> = Vec::new();
    let ghost mut found: Seq<Seq<u8>> = Seq::empty();
    let mut i: usize = 0;
    while i < def.len()
        invariant
            i <= def@.len(),
            words_from(def@, i as int, current@, found) == whitespace_words(def@),
            words@.len() == found.len(),
            forall|k: int| 0 <= k < found.len() ==> #[trigger] words@[k]@ == found[k],
        decreases def.len() - i,
    {
        let w = whitespace_at(def, i);
        if w > 0 {
            if current.len() > 0 {
                let ghost word = current@;
                words.push(current);
                proof {
                    found = found.push(word);
                }
                current = Vec::new();
            } else {
                current = Vec::new();
            }
            i = i + w;
        } else {
            current.push(def[i]);
            i = i + 1;
        }
    }
    if current.len() > 0 {
        let ghost word = current@;
        words.push(current);
        proof {
            found = found.push(word);
        }
    }
    if words.len() == 2 {
        let param_name = words.pop().unwrap();
        let kind = words.pop().unwrap();
        Some((kind, param_name))
    } else {
        None
    }
}

} // verus!
