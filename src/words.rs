//! The fixed list of words that events carry.

use vstd::prelude::*;

verus! {

/// How many words the list holds.
pub const WORD_COUNT: usize = 8;

/// The word list, in order.
pub open spec fn word_list() -> Seq<Seq<char>> {
    seq!["hello"@, "world"@, "axum"@, "rust"@, "async"@, "stream"@, "http"@, "server"@]
}

/// A word fits in one SSE `data` line: it is not empty and holds no line break.
pub open spec fn single_line(w: Seq<char>) -> bool {
    &&& w.len() > 0
    &&& !w.contains('\n')
    &&& !w.contains('\r')
}

/// The word at position `i` of the list.
pub fn word_at(i: usize) -> (r: &'static str)
    requires
        i < WORD_COUNT,
    ensures
        r@ == word_list()[i as int],
{
    match i {
        0 => "hello",
        1 => "world",
        2 => "axum",
        3 => "rust",
        4 => "async",
        5 => "stream",
        6 => "http",
        _ => "server",
    }
}

/// The list has `WORD_COUNT` entries, and each of them fits in one SSE `data` line.
pub proof fn lemma_words_single_line()
    ensures
        word_list().len() == WORD_COUNT,
        forall|i: int| 0 <= i < WORD_COUNT ==> #[trigger] single_line(word_list()[i]),
{
    reveal_strlit("hello");
    reveal_strlit("world");
    reveal_strlit("axum");
    reveal_strlit("rust");
    reveal_strlit("async");
    reveal_strlit("stream");
    reveal_strlit("http");
    reveal_strlit("server");
}

} // verus!
