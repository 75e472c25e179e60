//! Lists of strings and what they hold.

use vstd::prelude::*;

verus! {

/// The texts of a list of strings.
pub open spec fn texts(list: Seq<String>) -> Seq<Seq<char>> {
    list.map_values(|text: String| text@)
}

/// The texts of a list of lists of strings.
pub open spec fn rows(list: Seq<Vec<String>>) -> Seq<Seq<Seq<char>>> {
    list.map_values(|row: Vec<String>| texts(row@))
}

/// Appending a string appends its text.
pub proof fn lemma_texts_push(list: Seq<String>, text: String)
    ensures
        texts(list.push(text)) == texts(list).push(text@),
{
    assert(texts(list.push(text)) =~= texts(list).push(text@));
}

/// A copy of a list of strings.
pub fn copy_texts(list: &Vec<String>) -> (r: Vec<String>)
    ensures
        texts(r@) == texts(list@),
{
    let mut out: Vec<String> = Vec::new();
    let mut i: usize = 0;
    while i < list.len()
        invariant
            i <= list.len(),
            out@.len() == i,
            texts(out@) == texts(list@.take(i as int)),
        decreases list.len() - i,
    {
        proof {
            lemma_texts_push(out@, list@[i as int]);
            assert(list@.take(i as int + 1) =~= list@.take(i as int).push(list@[i as int]));
            lemma_texts_push(list@.take(i as int), list@[i as int]);
        }
        out.push(list[i].clone());
        i = i + 1;
    }
    assert(list@.take(i as int) =~= list@);
    out
}

} // verus!
